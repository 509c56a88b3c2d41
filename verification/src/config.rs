use vstd::prelude::*;
use crate::common::{PairId, ResourceAddress};
use crate::map::AssocMap;
use crate::decimal::{Decimal, scale};

verus! {

/// Why a configuration was refused.
#[derive(Clone, Copy, Debug, PartialEq, Eq, Structural)]
pub enum ConfigError {
    MaxPriceAge,
    PositionsMax,
    SkewRatioCap,
    AdlOffset,
    AdlA,
    AdlB,
    LiquidityFeeAdd,
    LiquidityFeeRemove,
    ProtocolFee,
    TreasuryFee,
    ReferralFee,
    MaxFee,
    ProtocolBurnAmount,
    KeeperReward,
    OiMax,
    TradeSizeMin,
    UpdatePriceDeltaRatio,
    UpdatePeriod,
    MarginInitial,
    MarginMaintenance,
    Funding1,
    Funding2,
    Funding2Delta,
    Funding2Decay,
    FundingPool0,
    FundingPool1,
    FundingShare,
    Fee0,
    Fee1,
    Discount,
    CollateralMargin,
}

impl ConfigError {
    /// The message with which the exchange refuses the configuration.
    pub fn message(&self) -> (r: &'static str)
        ensures
            r@ == self.message_text(),
    {
        match self {
            ConfigError::MaxPriceAge => "Invalid max price age",
            ConfigError::PositionsMax => "Invalid max positions",
            ConfigError::SkewRatioCap => "Invalid skew ratio cap",
            ConfigError::AdlOffset => "Invalid adl offset",
            ConfigError::AdlA => "Invalid adl a",
            ConfigError::AdlB => "Invalid adl b",
            ConfigError::LiquidityFeeAdd => "Invalid liquidity fee",
            ConfigError::LiquidityFeeRemove => "Invalid liquidity fee",
            ConfigError::ProtocolFee => "Invalid protocol fee",
            ConfigError::TreasuryFee => "Invalid treasury fee",
            ConfigError::ReferralFee => "Invalid referral fee",
            ConfigError::MaxFee => "Invalid max fee",
            ConfigError::ProtocolBurnAmount => "Invalid protocol burn amount",
            ConfigError::KeeperReward => "Invalid keeper reward",
            ConfigError::OiMax => "Invalid oi maximum",
            ConfigError::TradeSizeMin => "Invalid minimum trade size",
            ConfigError::UpdatePriceDeltaRatio => "Invalid pair update price delta ratio",
            ConfigError::UpdatePeriod => "Invalid pair update period",
            ConfigError::MarginInitial => "Invalid initial margin",
            ConfigError::MarginMaintenance => "Invalid maintenance margin",
            ConfigError::Funding1 => "Invalid funding 1",
            ConfigError::Funding2 => "Invalid funding 2",
            ConfigError::Funding2Delta => "Invalid funding 2 delta",
            ConfigError::Funding2Decay => "Invalid funding 2 decay",
            ConfigError::FundingPool0 => "Invalid funding pool 0",
            ConfigError::FundingPool1 => "Invalid funding pool 1",
            ConfigError::FundingShare => "Invalid funding share",
            ConfigError::Fee0 => "Invalid fee 0",
            ConfigError::Fee1 => "Invalid fee 1",
            ConfigError::Discount => "Invalid discount",
            ConfigError::CollateralMargin => "Invalid margin",
        }
    }

    /// The text of the message for each invalid setting.
    pub open spec fn message_text(self) -> Seq<char> {
        match self {
            ConfigError::MaxPriceAge => "Invalid max price age"@,
            ConfigError::PositionsMax => "Invalid max positions"@,
            ConfigError::SkewRatioCap => "Invalid skew ratio cap"@,
            ConfigError::AdlOffset => "Invalid adl offset"@,
            ConfigError::AdlA => "Invalid adl a"@,
            ConfigError::AdlB => "Invalid adl b"@,
            ConfigError::LiquidityFeeAdd => "Invalid liquidity fee"@,
            ConfigError::LiquidityFeeRemove => "Invalid liquidity fee"@,
            ConfigError::ProtocolFee => "Invalid protocol fee"@,
            ConfigError::TreasuryFee => "Invalid treasury fee"@,
            ConfigError::ReferralFee => "Invalid referral fee"@,
            ConfigError::MaxFee => "Invalid max fee"@,
            ConfigError::ProtocolBurnAmount => "Invalid protocol burn amount"@,
            ConfigError::KeeperReward => "Invalid keeper reward"@,
            ConfigError::OiMax => "Invalid oi maximum"@,
            ConfigError::TradeSizeMin => "Invalid minimum trade size"@,
            ConfigError::UpdatePriceDeltaRatio => "Invalid pair update price delta ratio"@,
            ConfigError::UpdatePeriod => "Invalid pair update period"@,
            ConfigError::MarginInitial => "Invalid initial margin"@,
            ConfigError::MarginMaintenance => "Invalid maintenance margin"@,
            ConfigError::Funding1 => "Invalid funding 1"@,
            ConfigError::Funding2 => "Invalid funding 2"@,
            ConfigError::Funding2Delta => "Invalid funding 2 delta"@,
            ConfigError::Funding2Decay => "Invalid funding 2 decay"@,
            ConfigError::FundingPool0 => "Invalid funding pool 0"@,
            ConfigError::FundingPool1 => "Invalid funding pool 1"@,
            ConfigError::FundingShare => "Invalid funding share"@,
            ConfigError::Fee0 => "Invalid fee 0"@,
            ConfigError::Fee1 => "Invalid fee 1"@,
            ConfigError::Discount => "Invalid discount"@,
            ConfigError::CollateralMargin => "Invalid margin"@,
        }
    }
}

/// Whether `x` lies in `[lo, hi]` (all in attos).
pub open spec fn within(x: int, lo: int, hi: int) -> bool {
    lo <= x <= hi
}

/// Exchange-wide settings.
#[derive(Clone, Copy, Debug)]
pub struct ExchangeConfig {
    /// Maximum allowed age of the price in seconds
    pub max_price_age_seconds: i64,
    /// Maximum allowed number of positions per account
    pub positions_max: u16,
    /// Maximum allowed number of collaterals per account
    pub collaterals_max: u16,
    /// Maximum allowed number of active requests per account
    pub active_requests_max: u16,
    /// Maximum skew ratio allowed before skew increasing orders can not be made
    pub skew_ratio_cap: Decimal,
    /// ADL offset calculation parameter
    pub adl_offset: Decimal,
    /// ADL A calculation parameter
    pub adl_a: Decimal,
    /// ADL B calculation parameter
    pub adl_b: Decimal,
    /// Fee for adding liquidity
    pub fee_liquidity_add: Decimal,
    /// Fee for removing liquidity
    pub fee_liquidity_remove: Decimal,
    /// Share of fees that goes to the protocol
    pub fee_share_protocol: Decimal,
    /// Share of fees that goes to the treasury
    pub fee_share_treasury: Decimal,
    /// Share of fees that goes to the referrer
    pub fee_share_referral: Decimal,
    /// Maximum fee rate that can be charged
    pub fee_max: Decimal,
    /// Amount to burn for protocol fees
    pub protocol_burn_amount: Decimal,
    /// Keeper reward amount
    pub reward_keeper: Decimal,
}

impl ExchangeConfig {
    /// The first rule that the settings break, if any.
    pub open spec fn spec_validate(self) -> Result<(), ConfigError> {
        if !(self.max_price_age_seconds > 0) {
            Err(ConfigError::MaxPriceAge)
        } else if !(self.positions_max > 0) {
            Err(ConfigError::PositionsMax)
        } else if !(self.skew_ratio_cap@ >= 0) {
            Err(ConfigError::SkewRatioCap)
        } else if !(self.adl_offset@ >= 0) {
            Err(ConfigError::AdlOffset)
        } else if !(self.adl_a@ >= 0) {
            Err(ConfigError::AdlA)
        } else if !(self.adl_b@ >= 0) {
            Err(ConfigError::AdlB)
        } else if !(self.fee_liquidity_add@ >= 0) {
            Err(ConfigError::LiquidityFeeAdd)
        } else if !(self.fee_liquidity_remove@ >= 0) {
            Err(ConfigError::LiquidityFeeRemove)
        } else if !within(self.fee_share_protocol@, 0, 3 * scale() / 10) {
            Err(ConfigError::ProtocolFee)
        } else if !within(self.fee_share_treasury@, 0, 15 * scale() / 100) {
            Err(ConfigError::TreasuryFee)
        } else if !within(self.fee_share_referral@, 0, scale()) {
            Err(ConfigError::ReferralFee)
        } else if !(self.fee_max@ >= 0) {
            Err(ConfigError::MaxFee)
        } else if !(self.protocol_burn_amount@ >= 1000 * scale()) {
            Err(ConfigError::ProtocolBurnAmount)
        } else if !(self.reward_keeper@ >= 0) {
            Err(ConfigError::KeeperReward)
        } else {
            Ok(())
        }
    }

    /// The default settings.
    pub fn default() -> (r: ExchangeConfig)
        ensures
            r.max_price_age_seconds == 5,
            r.positions_max == 30,
            r.collaterals_max == 5,
            r.active_requests_max == 100,
            r.skew_ratio_cap@ == 15 * scale() / 100,
            r.adl_offset@ == 2 * scale() / 10,
            r.adl_a@ == 7 * scale() / 100,
            r.adl_b@ == 7 * scale() / 100,
            r.fee_liquidity_add@ == scale() / 1000,
            r.fee_liquidity_remove@ == scale() / 1000,
            r.fee_share_protocol@ == 22 * scale() / 100,
            r.fee_share_treasury@ == 8 * scale() / 100,
            r.fee_share_referral@ == scale(),
            r.fee_max@ == scale() / 100,
            r.protocol_burn_amount@ == 10000 * scale(),
            r.reward_keeper@ == scale(),
            r.spec_validate() is Ok,
    {
        ExchangeConfig {
            max_price_age_seconds: 5,
            positions_max: 30,
            collaterals_max: 5,
            active_requests_max: 100,
            skew_ratio_cap: Decimal::from_attos(150_000_000_000_000_000),
            adl_offset: Decimal::from_attos(200_000_000_000_000_000),
            adl_a: Decimal::from_attos(70_000_000_000_000_000),
            adl_b: Decimal::from_attos(70_000_000_000_000_000),
            fee_liquidity_add: Decimal::from_attos(1_000_000_000_000_000),
            fee_liquidity_remove: Decimal::from_attos(1_000_000_000_000_000),
            fee_share_protocol: Decimal::from_attos(220_000_000_000_000_000),
            fee_share_treasury: Decimal::from_attos(80_000_000_000_000_000),
            fee_share_referral: Decimal::from_int(1),
            fee_max: Decimal::from_attos(10_000_000_000_000_000),
            protocol_burn_amount: Decimal::from_int(10000),
            reward_keeper: Decimal::from_int(1),
        }
    }

    /// Checks the settings; the error names the first rule that they break.
    pub fn validate(&self) -> (r: Result<(), ConfigError>)
        ensures
            r == self.spec_validate(),
    {
        let zero = Decimal::zero();
        if !(self.max_price_age_seconds > 0) {
            return Err(ConfigError::MaxPriceAge);
        }
        if !(self.positions_max > 0) {
            return Err(ConfigError::PositionsMax);
        }
        if !self.skew_ratio_cap.ge(zero) {
            return Err(ConfigError::SkewRatioCap);
        }
        if !self.adl_offset.ge(zero) {
            return Err(ConfigError::AdlOffset);
        }
        if !self.adl_a.ge(zero) {
            return Err(ConfigError::AdlA);
        }
        if !self.adl_b.ge(zero) {
            return Err(ConfigError::AdlB);
        }
        if !self.fee_liquidity_add.ge(zero) {
            return Err(ConfigError::LiquidityFeeAdd);
        }
        if !self.fee_liquidity_remove.ge(zero) {
            return Err(ConfigError::LiquidityFeeRemove);
        }
        if !(self.fee_share_protocol.ge(zero) && self.fee_share_protocol.le(
            Decimal::from_attos(300_000_000_000_000_000),
        )) {
            return Err(ConfigError::ProtocolFee);
        }
        if !(self.fee_share_treasury.ge(zero) && self.fee_share_treasury.le(
            Decimal::from_attos(150_000_000_000_000_000),
        )) {
            return Err(ConfigError::TreasuryFee);
        }
        if !(self.fee_share_referral.ge(zero) && self.fee_share_referral.le(Decimal::one())) {
            return Err(ConfigError::ReferralFee);
        }
        if !self.fee_max.ge(zero) {
            return Err(ConfigError::MaxFee);
        }
        if !self.protocol_burn_amount.ge(Decimal::from_int(1000)) {
            return Err(ConfigError::ProtocolBurnAmount);
        }
        if !self.reward_keeper.ge(zero) {
            return Err(ConfigError::KeeperReward);
        }
        Ok(())
    }
}

/// Settings of one trading pair.
#[derive(Clone, Debug)]
pub struct PairConfig {
    /// Price feed id
    pub pair_id: PairId,
    /// Maximum allowed combined oi for the pair
    pub oi_max: Decimal,
    /// Minimum trade size
    pub trade_size_min: Decimal,
    /// Price delta ratio before updating a pair will be rewarded
    pub update_price_delta_ratio: Decimal,
    /// Time before updating a pair will be rewarded
    pub update_period_seconds: i64,
    /// Initial margin required
    pub margin_initial: Decimal,
    /// Maintenance margin required
    pub margin_maintenance: Decimal,
    /// Skew based funding
    pub funding_1: Decimal,
    /// Integral of skew based funding
    pub funding_2: Decimal,
    /// Rate of change of funding 2 integral
    pub funding_2_delta: Decimal,
    /// Rate of decay for funding 2 if it is out of bounds
    pub funding_2_decay: Decimal,
    /// Constant pool funding
    pub funding_pool_0: Decimal,
    /// Skew based pool funding
    pub funding_pool_1: Decimal,
    /// Share of regular funding taken as pool funding
    pub funding_share: Decimal,
    /// Constant fee
    pub fee_0: Decimal,
    /// Price impact fee
    pub fee_1: Decimal,
}

impl PairConfig {
    /// Whether two pairs' settings are the same, field by field.
    pub open spec fn same_as(self, other: PairConfig) -> bool {
        &&& self.pair_id@ == other.pair_id@
        &&& self.oi_max == other.oi_max
        &&& self.trade_size_min == other.trade_size_min
        &&& self.update_price_delta_ratio == other.update_price_delta_ratio
        &&& self.update_period_seconds == other.update_period_seconds
        &&& self.margin_initial == other.margin_initial
        &&& self.margin_maintenance == other.margin_maintenance
        &&& self.funding_1 == other.funding_1
        &&& self.funding_2 == other.funding_2
        &&& self.funding_2_delta == other.funding_2_delta
        &&& self.funding_2_decay == other.funding_2_decay
        &&& self.funding_pool_0 == other.funding_pool_0
        &&& self.funding_pool_1 == other.funding_pool_1
        &&& self.funding_share == other.funding_share
        &&& self.fee_0 == other.fee_0
        &&& self.fee_1 == other.fee_1
    }

    /// A copy of the settings.
    pub fn copy(&self) -> (r: PairConfig)
        ensures
            r.same_as(*self),
    {
        PairConfig {
            pair_id: self.pair_id.clone(),
            oi_max: self.oi_max,
            trade_size_min: self.trade_size_min,
            update_price_delta_ratio: self.update_price_delta_ratio,
            update_period_seconds: self.update_period_seconds,
            margin_initial: self.margin_initial,
            margin_maintenance: self.margin_maintenance,
            funding_1: self.funding_1,
            funding_2: self.funding_2,
            funding_2_delta: self.funding_2_delta,
            funding_2_decay: self.funding_2_decay,
            funding_pool_0: self.funding_pool_0,
            funding_pool_1: self.funding_pool_1,
            funding_share: self.funding_share,
            fee_0: self.fee_0,
            fee_1: self.fee_1,
        }
    }

    /// The first rule that the settings break, if any.
    pub open spec fn spec_validate(self) -> Result<(), ConfigError> {
        if !(self.oi_max@ >= 0) {
            Err(ConfigError::OiMax)
        } else if !(self.trade_size_min@ >= 0) {
            Err(ConfigError::TradeSizeMin)
        } else if !(self.update_price_delta_ratio@ > 0) {
            Err(ConfigError::UpdatePriceDeltaRatio)
        } else if !(self.update_period_seconds > 0) {
            Err(ConfigError::UpdatePeriod)
        } else if !within(self.margin_initial@, 0, scale()) {
            Err(ConfigError::MarginInitial)
        } else if !(within(self.margin_maintenance@, 0, scale()) && self.margin_maintenance@
            <= self.margin_initial@) {
            Err(ConfigError::MarginMaintenance)
        } else if !within(self.funding_1@, 0, 2 * scale()) {
            Err(ConfigError::Funding1)
        } else if !within(self.funding_2@, 0, 4 * scale()) {
            Err(ConfigError::Funding2)
        } else if !within(self.funding_2_delta@, 0, 10000 * scale()) {
            Err(ConfigError::Funding2Delta)
        } else if !(self.funding_2_decay@ >= 0) {
            Err(ConfigError::Funding2Decay)
        } else if !within(self.funding_pool_0@, 0, scale()) {
            Err(ConfigError::FundingPool0)
        } else if !within(self.funding_pool_1@, 0, 2 * scale()) {
            Err(ConfigError::FundingPool1)
        } else if !within(self.funding_share@, 0, scale() / 10) {
            Err(ConfigError::FundingShare)
        } else if !within(self.fee_0@, 0, 15 * scale() / 1000) {
            Err(ConfigError::Fee0)
        } else if !within(self.fee_1@, 0, scale() / 1_000_000) {
            Err(ConfigError::Fee1)
        } else {
            Ok(())
        }
    }

    /// Checks the settings; the error names the first rule that they break.
    pub fn validate(&self) -> (r: Result<(), ConfigError>)
        ensures
            r == self.spec_validate(),
    {
        let zero = Decimal::zero();
        let one = Decimal::one();
        if !self.oi_max.ge(zero) {
            return Err(ConfigError::OiMax);
        }
        if !self.trade_size_min.ge(zero) {
            return Err(ConfigError::TradeSizeMin);
        }
        if !self.update_price_delta_ratio.gt(zero) {
            return Err(ConfigError::UpdatePriceDeltaRatio);
        }
        if !(self.update_period_seconds > 0) {
            return Err(ConfigError::UpdatePeriod);
        }
        if !(self.margin_initial.ge(zero) && self.margin_initial.le(one)) {
            return Err(ConfigError::MarginInitial);
        }
        if !(self.margin_maintenance.ge(zero) && self.margin_maintenance.le(one)
            && self.margin_maintenance.le(self.margin_initial)) {
            return Err(ConfigError::MarginMaintenance);
        }
        if !(self.funding_1.ge(zero) && self.funding_1.le(Decimal::from_int(2))) {
            return Err(ConfigError::Funding1);
        }
        if !(self.funding_2.ge(zero) && self.funding_2.le(Decimal::from_int(4))) {
            return Err(ConfigError::Funding2);
        }
        if !(self.funding_2_delta.ge(zero) && self.funding_2_delta.le(Decimal::from_int(10000))) {
            return Err(ConfigError::Funding2Delta);
        }
        if !self.funding_2_decay.ge(zero) {
            return Err(ConfigError::Funding2Decay);
        }
        if !(self.funding_pool_0.ge(zero) && self.funding_pool_0.le(one)) {
            return Err(ConfigError::FundingPool0);
        }
        if !(self.funding_pool_1.ge(zero) && self.funding_pool_1.le(Decimal::from_int(2))) {
            return Err(ConfigError::FundingPool1);
        }
        if !(self.funding_share.ge(zero) && self.funding_share.le(
            Decimal::from_attos(100_000_000_000_000_000),
        )) {
            return Err(ConfigError::FundingShare);
        }
        if !(self.fee_0.ge(zero) && self.fee_0.le(Decimal::from_attos(15_000_000_000_000_000))) {
            return Err(ConfigError::Fee0);
        }
        if !(self.fee_1.ge(zero) && self.fee_1.le(Decimal::from_attos(1_000_000_000_000))) {
            return Err(ConfigError::Fee1);
        }
        Ok(())
    }
}

/// Settings of one collateral resource.
#[derive(Clone, Debug)]
pub struct CollateralConfig {
    /// Price feed id
    pub pair_id: PairId,
    /// Discount applied to the collateral
    pub discount: Decimal,
    /// Margin required for the collateral
    pub margin: Decimal,
}

impl CollateralConfig {
    /// The first rule that the settings break, if any.
    pub open spec fn spec_validate(self) -> Result<(), ConfigError> {
        if !within(self.discount@, 0, scale()) {
            Err(ConfigError::Discount)
        } else if !within(self.margin@, 0, scale() / 10) {
            Err(ConfigError::CollateralMargin)
        } else {
            Ok(())
        }
    }

    /// Checks the settings; the error names the first rule that they break.
    pub fn validate(&self) -> (r: Result<(), ConfigError>)
        ensures
            r == self.spec_validate(),
    {
        let zero = Decimal::zero();
        if !(self.discount.ge(zero) && self.discount.le(Decimal::one())) {
            return Err(ConfigError::Discount);
        }
        if !(self.margin.ge(zero) && self.margin.le(Decimal::from_attos(100_000_000_000_000_000))) {
            return Err(ConfigError::CollateralMargin);
        }
        Ok(())
    }
}

/// The settings that an operation reads: the exchange's, those of the pairs
/// it touches, and those of every collateral resource.
pub struct VirtualConfig {
    pub exchange_config: ExchangeConfig,
    pub pair_configs: AssocMap<PairId, PairConfig>,
    pub collateral_configs: AssocMap<ResourceAddress, CollateralConfig>,
}

impl VirtualConfig {
    pub open spec fn has_pair(self, pair_id: Seq<char>) -> bool {
        self.pair_configs.view_map().dom().contains(pair_id)
    }

    pub open spec fn pair_of(self, pair_id: Seq<char>) -> PairConfig {
        self.pair_configs.view_map()[pair_id]
    }

    /// The exchange's settings.
    pub fn exchange_config(&self) -> (r: &ExchangeConfig)
        ensures
            *r == self.exchange_config,
    {
        &self.exchange_config
    }

    /// The settings of every collateral resource.
    pub fn collateral_configs(&self) -> (r: &AssocMap<ResourceAddress, CollateralConfig>)
        ensures
            *r == self.collateral_configs,
    {
        &self.collateral_configs
    }

    /// The price feed of each collateral resource, in the order of the settings.
    pub fn collateral_feeds(&self) -> (r: Vec<(ResourceAddress, PairId)>)
        ensures
            r@.len() == self.collateral_configs.entries().len(),
            forall|i: int|
                0 <= i < r@.len() ==> (#[trigger] r@[i]).0 == self.collateral_configs.entries()[i].0 && r@[i].1@
                    == self.collateral_configs.entries()[i].1.pair_id@,
    {
        let mut r: Vec<(ResourceAddress, PairId)> = Vec::new();
        let mut i: usize = 0;
        while i < self.collateral_configs.len()
            invariant
                i <= self.collateral_configs.entries().len(),
                r@.len() == i,
                forall|j: int|
                    0 <= j < i ==> (#[trigger] r@[j]).0 == self.collateral_configs.entries()[j].0 && r@[j].1@
                        == self.collateral_configs.entries()[j].1.pair_id@,
            decreases self.collateral_configs.entries().len() - i,
        {
            let resource = *self.collateral_configs.key_at(i);
            let pair_id = self.collateral_configs.value_at(i).pair_id.clone();
            r.push((resource, pair_id));
            i = i + 1;
        }
        r
    }

    /// The settings of a pair that the operation loaded.
    pub fn pair_config(&self, pair_id: &PairId) -> (r: &PairConfig)
        requires
            self.has_pair(pair_id@),
        ensures
            *r == self.pair_of(pair_id@),
    {
        self.pair_configs.get(pair_id).unwrap()
    }
}

} // verus!
