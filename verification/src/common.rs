use vstd::prelude::*;

verus! {

/// Identifies a trading pair (and the oracle feed of its price).
pub type PairId = String;

/// Position in an append-only list.
pub type ListIndex = u64;

/// Offset between two list positions.
pub type ListIndexOffset = i64;

/// The address of a resource on the ledger: its 30-byte node id, the first 14
/// bytes big-endian in `high` and the last 16 in `low`.
#[derive(Clone, Copy, Debug, PartialEq, Eq, Structural)]
pub struct ResourceAddress {
    pub high: u128,
    pub low: u128,
}

/// The address of a component on the ledger, packed as a [`ResourceAddress`] is.
#[derive(Clone, Copy, Debug, PartialEq, Eq, Structural)]
pub struct ComponentAddress {
    pub high: u128,
    pub low: u128,
}

/// Why the exchange refuses an operation.
#[derive(Clone, Copy, Debug, PartialEq, Eq, Structural)]
pub enum ExchangeError {
    SkewTooHigh,
    PairOiTooHigh,
    InsufficientMargin,
    MarginOrderPriceLimit,
    MarginOrderSlippageLimit,
    InvalidPaymentToken,
    InvalidLpToken,
    WithdrawalInsufficientBalance,
    WithdrawalInsufficientPoolTokens,
    LiquidationSufficientMargin,
    InsufficientPayment,
    AdlSkewTooLow,
    AdlPnlBelowThreshold,
    AdlSkewNotReduced,
    AdlNoPosition,
    SwapNoDebt,
    ClaimsTooMany,
    EffectedRequestsTooMany,
    TradeSizeMinNotMet,
    InvalidCollateral,
    PositionsTooMany,
    CollateralsTooMany,
    ActiveRequestsTooMany,
    InvalidRequestStatus,
    CancelRequestNotActiveOrDormant,
    ProcessRequestNotActive,
    ProcessRequestBeforeValidStart,
    ProcessRequestBeforeSubmission,
    PriceTooOld,
    InvalidPrice,
    ReferralLimitReached,
    InvalidReferralData,
    InvalidAuthLevel,
    InvalidFeeOath,
}

impl ExchangeError {
    /// The message with which the exchange refuses the operation.
    pub fn message(&self) -> (r: &'static str)
        ensures
            r@ == self.message_text(),
    {
        match self {
            ExchangeError::SkewTooHigh => "Skew exceeds maximum",
            ExchangeError::PairOiTooHigh => "Pair OI exceeds maximum",
            ExchangeError::InsufficientMargin => "Insufficient margin",
            ExchangeError::MarginOrderPriceLimit => "Price limit not met",
            ExchangeError::MarginOrderSlippageLimit => "Slippage limit not met",
            ExchangeError::InvalidPaymentToken => "Invalid payment resource",
            ExchangeError::InvalidLpToken => "Invalid LP token",
            ExchangeError::WithdrawalInsufficientBalance => "Insufficient balance for withdrawal",
            ExchangeError::WithdrawalInsufficientPoolTokens => "Insufficient pool balance for withdrawal",
            ExchangeError::LiquidationSufficientMargin => "Sufficient margin for liquidation",
            ExchangeError::InsufficientPayment => "Insufficient payment for liquidation",
            ExchangeError::AdlSkewTooLow => "Skew ratio is too low for ADL",
            ExchangeError::AdlPnlBelowThreshold => "PnL not positive",
            ExchangeError::AdlSkewNotReduced => "Skew ratio not reduced",
            ExchangeError::AdlNoPosition => "No position to close",
            ExchangeError::SwapNoDebt => "No debt to swap",
            ExchangeError::ClaimsTooMany => "Claims list too big",
            ExchangeError::EffectedRequestsTooMany => "Effected requests list too big",
            ExchangeError::TradeSizeMinNotMet => "Trade size minimum not met",
            ExchangeError::InvalidCollateral => "Invalid collateral",
            ExchangeError::PositionsTooMany => "Too many positions",
            ExchangeError::CollateralsTooMany => "Too many collaterals",
            ExchangeError::ActiveRequestsTooMany => "Too many active requests",
            ExchangeError::InvalidRequestStatus => "Invalid request status",
            ExchangeError::CancelRequestNotActiveOrDormant => "Request not active or dormant",
            ExchangeError::ProcessRequestNotActive => "Request not active",
            ExchangeError::ProcessRequestBeforeValidStart => "Request before valid start",
            ExchangeError::ProcessRequestBeforeSubmission => "Request before submission",
            ExchangeError::PriceTooOld => "Price too old",
            ExchangeError::InvalidPrice => "Invalid price",
            ExchangeError::ReferralLimitReached => "Referral limit reached",
            ExchangeError::InvalidReferralData => "Invalid referral data",
            ExchangeError::InvalidAuthLevel => "Invalid auth level",
            ExchangeError::InvalidFeeOath => "Invalid fee oath",
        }
    }

    /// The text of the message for each kind of refusal.
    pub open spec fn message_text(self) -> Seq<char> {
        match self {
            ExchangeError::SkewTooHigh => "Skew exceeds maximum"@,
            ExchangeError::PairOiTooHigh => "Pair OI exceeds maximum"@,
            ExchangeError::InsufficientMargin => "Insufficient margin"@,
            ExchangeError::MarginOrderPriceLimit => "Price limit not met"@,
            ExchangeError::MarginOrderSlippageLimit => "Slippage limit not met"@,
            ExchangeError::InvalidPaymentToken => "Invalid payment resource"@,
            ExchangeError::InvalidLpToken => "Invalid LP token"@,
            ExchangeError::WithdrawalInsufficientBalance => "Insufficient balance for withdrawal"@,
            ExchangeError::WithdrawalInsufficientPoolTokens => "Insufficient pool balance for withdrawal"@,
            ExchangeError::LiquidationSufficientMargin => "Sufficient margin for liquidation"@,
            ExchangeError::InsufficientPayment => "Insufficient payment for liquidation"@,
            ExchangeError::AdlSkewTooLow => "Skew ratio is too low for ADL"@,
            ExchangeError::AdlPnlBelowThreshold => "PnL not positive"@,
            ExchangeError::AdlSkewNotReduced => "Skew ratio not reduced"@,
            ExchangeError::AdlNoPosition => "No position to close"@,
            ExchangeError::SwapNoDebt => "No debt to swap"@,
            ExchangeError::ClaimsTooMany => "Claims list too big"@,
            ExchangeError::EffectedRequestsTooMany => "Effected requests list too big"@,
            ExchangeError::TradeSizeMinNotMet => "Trade size minimum not met"@,
            ExchangeError::InvalidCollateral => "Invalid collateral"@,
            ExchangeError::PositionsTooMany => "Too many positions"@,
            ExchangeError::CollateralsTooMany => "Too many collaterals"@,
            ExchangeError::ActiveRequestsTooMany => "Too many active requests"@,
            ExchangeError::InvalidRequestStatus => "Invalid request status"@,
            ExchangeError::CancelRequestNotActiveOrDormant => "Request not active or dormant"@,
            ExchangeError::ProcessRequestNotActive => "Request not active"@,
            ExchangeError::ProcessRequestBeforeValidStart => "Request before valid start"@,
            ExchangeError::ProcessRequestBeforeSubmission => "Request before submission"@,
            ExchangeError::PriceTooOld => "Price too old"@,
            ExchangeError::InvalidPrice => "Invalid price"@,
            ExchangeError::ReferralLimitReached => "Referral limit reached"@,
            ExchangeError::InvalidReferralData => "Invalid referral data"@,
            ExchangeError::InvalidAuthLevel => "Invalid auth level"@,
            ExchangeError::InvalidFeeOath => "Invalid fee oath"@,
        }
    }
}

} // verus!
