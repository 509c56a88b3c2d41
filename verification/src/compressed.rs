use vstd::prelude::*;
use crate::common::PairId;
use crate::config::{CollateralConfig, ExchangeConfig, PairConfig};
use crate::d_float::{DFloat16, dfloat_bits, dfloat_parts, packed};
use crate::decimal::{abs, in_range};

verus! {

/// Whether a decimal of `x` attos can be stored in 16 bits.
pub open spec fn compressible(x: int) -> bool {
    in_range(abs(x)) && dfloat_parts(x) is Some
}

/// Whether `d` is what storing `x` attos in 16 bits gives.
pub open spec fn compresses_to(d: DFloat16, x: int) -> bool {
    dfloat_parts(x) matches Some((e, s)) && d.0 == dfloat_bits(e, s)
}

/// The exchange's settings with their decimals stored in 16 bits.
#[derive(Clone, Copy, Debug)]
pub struct ExchangeConfigCompressed {
    pub max_price_age_seconds: u32,
    pub positions_max: u16,
    pub collaterals_max: u16,
    pub active_requests_max: u16,
    pub skew_ratio_cap: DFloat16,
    pub adl_offset: DFloat16,
    pub adl_a: DFloat16,
    pub adl_b: DFloat16,
    pub fee_liquidity_add: DFloat16,
    pub fee_liquidity_remove: DFloat16,
    pub fee_share_protocol: DFloat16,
    pub fee_share_treasury: DFloat16,
    pub fee_share_referral: DFloat16,
    pub fee_max: DFloat16,
    pub protocol_burn_amount: DFloat16,
    pub keeper_reward: DFloat16,
}

/// A pair's settings with their decimals stored in 16 bits.
#[derive(Clone, Debug)]
pub struct PairConfigCompressed {
    pub pair_id: PairId,
    pub oi_max: DFloat16,
    pub trade_size_min: DFloat16,
    pub update_price_delta_ratio: DFloat16,
    pub update_period_seconds: u16,
    pub margin_initial: DFloat16,
    pub margin_maintenance: DFloat16,
    pub funding_1: DFloat16,
    pub funding_2: DFloat16,
    pub funding_2_delta: DFloat16,
    pub funding_2_decay: DFloat16,
    pub funding_pool_0: DFloat16,
    pub funding_pool_1: DFloat16,
    pub funding_share: DFloat16,
    pub fee_0: DFloat16,
    pub fee_1: DFloat16,
}

/// A collateral resource's settings with their decimals stored in 16 bits.
#[derive(Clone, Debug)]
pub struct CollateralConfigCompressed {
    pub pair_id: PairId,
    pub discount: DFloat16,
    pub margin: DFloat16,
}

impl ExchangeConfig {
    /// The settings with their decimals stored in 16 bits (the price age
    /// truncated to 32 bits).
    pub fn compress(&self) -> (r: ExchangeConfigCompressed)
        requires
            compressible(self.skew_ratio_cap@),
            compressible(self.adl_offset@),
            compressible(self.adl_a@),
            compressible(self.adl_b@),
            compressible(self.fee_liquidity_add@),
            compressible(self.fee_liquidity_remove@),
            compressible(self.fee_share_protocol@),
            compressible(self.fee_share_treasury@),
            compressible(self.fee_share_referral@),
            compressible(self.fee_max@),
            compressible(self.protocol_burn_amount@),
            compressible(self.reward_keeper@),
        ensures
            r.max_price_age_seconds == self.max_price_age_seconds as u32,
            r.positions_max == self.positions_max,
            r.collaterals_max == self.collaterals_max,
            r.active_requests_max == self.active_requests_max,
            compresses_to(r.skew_ratio_cap, self.skew_ratio_cap@),
            compresses_to(r.adl_offset, self.adl_offset@),
            compresses_to(r.adl_a, self.adl_a@),
            compresses_to(r.adl_b, self.adl_b@),
            compresses_to(r.fee_liquidity_add, self.fee_liquidity_add@),
            compresses_to(r.fee_liquidity_remove, self.fee_liquidity_remove@),
            compresses_to(r.fee_share_protocol, self.fee_share_protocol@),
            compresses_to(r.fee_share_treasury, self.fee_share_treasury@),
            compresses_to(r.fee_share_referral, self.fee_share_referral@),
            compresses_to(r.fee_max, self.fee_max@),
            compresses_to(r.protocol_burn_amount, self.protocol_burn_amount@),
            compresses_to(r.keeper_reward, self.reward_keeper@),
            r == compressed_exchange(*self),
    {
        ExchangeConfigCompressed {
            max_price_age_seconds: self.max_price_age_seconds as u32,
            positions_max: self.positions_max,
            collaterals_max: self.collaterals_max,
            active_requests_max: self.active_requests_max,
            skew_ratio_cap: DFloat16::from_decimal(self.skew_ratio_cap),
            adl_offset: DFloat16::from_decimal(self.adl_offset),
            adl_a: DFloat16::from_decimal(self.adl_a),
            adl_b: DFloat16::from_decimal(self.adl_b),
            fee_liquidity_add: DFloat16::from_decimal(self.fee_liquidity_add),
            fee_liquidity_remove: DFloat16::from_decimal(self.fee_liquidity_remove),
            fee_share_protocol: DFloat16::from_decimal(self.fee_share_protocol),
            fee_share_treasury: DFloat16::from_decimal(self.fee_share_treasury),
            fee_share_referral: DFloat16::from_decimal(self.fee_share_referral),
            fee_max: DFloat16::from_decimal(self.fee_max),
            protocol_burn_amount: DFloat16::from_decimal(self.protocol_burn_amount),
            keeper_reward: DFloat16::from_decimal(self.reward_keeper),
        }
    }
}

impl ExchangeConfigCompressed {
    /// The settings with their decimals restored.
    pub fn decompress(&self) -> (r: ExchangeConfig)
        ensures
            r.max_price_age_seconds == self.max_price_age_seconds as i64,
            r.positions_max == self.positions_max,
            r.collaterals_max == self.collaterals_max,
            r.active_requests_max == self.active_requests_max,
            r.skew_ratio_cap@ == self.skew_ratio_cap.value(),
            r.adl_offset@ == self.adl_offset.value(),
            r.adl_a@ == self.adl_a.value(),
            r.adl_b@ == self.adl_b.value(),
            r.fee_liquidity_add@ == self.fee_liquidity_add.value(),
            r.fee_liquidity_remove@ == self.fee_liquidity_remove.value(),
            r.fee_share_protocol@ == self.fee_share_protocol.value(),
            r.fee_share_treasury@ == self.fee_share_treasury.value(),
            r.fee_share_referral@ == self.fee_share_referral.value(),
            r.fee_max@ == self.fee_max.value(),
            r.protocol_burn_amount@ == self.protocol_burn_amount.value(),
            r.reward_keeper@ == self.keeper_reward.value(),
    {
        ExchangeConfig {
            max_price_age_seconds: self.max_price_age_seconds as i64,
            positions_max: self.positions_max,
            collaterals_max: self.collaterals_max,
            active_requests_max: self.active_requests_max,
            skew_ratio_cap: self.skew_ratio_cap.to_decimal(),
            adl_offset: self.adl_offset.to_decimal(),
            adl_a: self.adl_a.to_decimal(),
            adl_b: self.adl_b.to_decimal(),
            fee_liquidity_add: self.fee_liquidity_add.to_decimal(),
            fee_liquidity_remove: self.fee_liquidity_remove.to_decimal(),
            fee_share_protocol: self.fee_share_protocol.to_decimal(),
            fee_share_treasury: self.fee_share_treasury.to_decimal(),
            fee_share_referral: self.fee_share_referral.to_decimal(),
            fee_max: self.fee_max.to_decimal(),
            protocol_burn_amount: self.protocol_burn_amount.to_decimal(),
            reward_keeper: self.keeper_reward.to_decimal(),
        }
    }
}

impl PairConfig {
    /// The settings with their decimals stored in 16 bits (the update period
    /// truncated to 16 bits).
    pub fn compress(&self) -> (r: PairConfigCompressed)
        requires
            compressible(self.oi_max@),
            compressible(self.trade_size_min@),
            compressible(self.update_price_delta_ratio@),
            compressible(self.margin_initial@),
            compressible(self.margin_maintenance@),
            compressible(self.funding_1@),
            compressible(self.funding_2@),
            compressible(self.funding_2_delta@),
            compressible(self.funding_2_decay@),
            compressible(self.funding_pool_0@),
            compressible(self.funding_pool_1@),
            compressible(self.funding_share@),
            compressible(self.fee_0@),
            compressible(self.fee_1@),
        ensures
            r.pair_id@ == self.pair_id@,
            r.update_period_seconds == self.update_period_seconds as u16,
            compresses_to(r.oi_max, self.oi_max@),
            compresses_to(r.trade_size_min, self.trade_size_min@),
            compresses_to(r.update_price_delta_ratio, self.update_price_delta_ratio@),
            compresses_to(r.margin_initial, self.margin_initial@),
            compresses_to(r.margin_maintenance, self.margin_maintenance@),
            compresses_to(r.funding_1, self.funding_1@),
            compresses_to(r.funding_2, self.funding_2@),
            compresses_to(r.funding_2_delta, self.funding_2_delta@),
            compresses_to(r.funding_2_decay, self.funding_2_decay@),
            compresses_to(r.funding_pool_0, self.funding_pool_0@),
            compresses_to(r.funding_pool_1, self.funding_pool_1@),
            compresses_to(r.funding_share, self.funding_share@),
            compresses_to(r.fee_0, self.fee_0@),
            compresses_to(r.fee_1, self.fee_1@),
            r@ == compressed_pair(*self),
    {
        PairConfigCompressed {
            pair_id: self.pair_id.clone(),
            update_period_seconds: self.update_period_seconds as u16,
            oi_max: DFloat16::from_decimal(self.oi_max),
            trade_size_min: DFloat16::from_decimal(self.trade_size_min),
            update_price_delta_ratio: DFloat16::from_decimal(self.update_price_delta_ratio),
            margin_initial: DFloat16::from_decimal(self.margin_initial),
            margin_maintenance: DFloat16::from_decimal(self.margin_maintenance),
            funding_1: DFloat16::from_decimal(self.funding_1),
            funding_2: DFloat16::from_decimal(self.funding_2),
            funding_2_delta: DFloat16::from_decimal(self.funding_2_delta),
            funding_2_decay: DFloat16::from_decimal(self.funding_2_decay),
            funding_pool_0: DFloat16::from_decimal(self.funding_pool_0),
            funding_pool_1: DFloat16::from_decimal(self.funding_pool_1),
            funding_share: DFloat16::from_decimal(self.funding_share),
            fee_0: DFloat16::from_decimal(self.fee_0),
            fee_1: DFloat16::from_decimal(self.fee_1),
        }
    }
}

impl PairConfigCompressed {
    /// The settings with their decimals restored.
    pub fn decompress(&self) -> (r: PairConfig)
        ensures
            r.pair_id@ == self.pair_id@,
            r.update_period_seconds == self.update_period_seconds as i64,
            r.oi_max@ == self.oi_max.value(),
            r.trade_size_min@ == self.trade_size_min.value(),
            r.update_price_delta_ratio@ == self.update_price_delta_ratio.value(),
            r.margin_initial@ == self.margin_initial.value(),
            r.margin_maintenance@ == self.margin_maintenance.value(),
            r.funding_1@ == self.funding_1.value(),
            r.funding_2@ == self.funding_2.value(),
            r.funding_2_delta@ == self.funding_2_delta.value(),
            r.funding_2_decay@ == self.funding_2_decay.value(),
            r.funding_pool_0@ == self.funding_pool_0.value(),
            r.funding_pool_1@ == self.funding_pool_1.value(),
            r.funding_share@ == self.funding_share.value(),
            r.fee_0@ == self.fee_0.value(),
            r.fee_1@ == self.fee_1.value(),
            decompressed_pair(r, self@),
    {
        PairConfig {
            pair_id: self.pair_id.clone(),
            update_period_seconds: self.update_period_seconds as i64,
            oi_max: self.oi_max.to_decimal(),
            trade_size_min: self.trade_size_min.to_decimal(),
            update_price_delta_ratio: self.update_price_delta_ratio.to_decimal(),
            margin_initial: self.margin_initial.to_decimal(),
            margin_maintenance: self.margin_maintenance.to_decimal(),
            funding_1: self.funding_1.to_decimal(),
            funding_2: self.funding_2.to_decimal(),
            funding_2_delta: self.funding_2_delta.to_decimal(),
            funding_2_decay: self.funding_2_decay.to_decimal(),
            funding_pool_0: self.funding_pool_0.to_decimal(),
            funding_pool_1: self.funding_pool_1.to_decimal(),
            funding_share: self.funding_share.to_decimal(),
            fee_0: self.fee_0.to_decimal(),
            fee_1: self.fee_1.to_decimal(),
        }
    }
}

impl CollateralConfig {
    /// The settings with their decimals stored in 16 bits.
    pub fn compress(&self) -> (r: CollateralConfigCompressed)
        requires
            compressible(self.discount@),
            compressible(self.margin@),
        ensures
            r.pair_id@ == self.pair_id@,
            compresses_to(r.discount, self.discount@),
            compresses_to(r.margin, self.margin@),
            r@ == compressed_collateral(*self),
    {
        CollateralConfigCompressed {
            pair_id: self.pair_id.clone(),
            discount: DFloat16::from_decimal(self.discount),
            margin: DFloat16::from_decimal(self.margin),
        }
    }
}

impl CollateralConfigCompressed {
    /// The settings with their decimals restored.
    pub fn decompress(&self) -> (r: CollateralConfig)
        ensures
            r.pair_id@ == self.pair_id@,
            r.discount@ == self.discount.value(),
            r.margin@ == self.margin.value(),
            decompressed_collateral(r, self@),
    {
        CollateralConfig {
            pair_id: self.pair_id.clone(),
            discount: self.discount.to_decimal(),
            margin: self.margin.to_decimal(),
        }
    }
}

/// The numbers of a [`PairConfigCompressed`], with its pair as text.
pub struct PairConfigCompressedView {
    pub pair_id: Seq<char>,
    pub oi_max: DFloat16,
    pub trade_size_min: DFloat16,
    pub update_price_delta_ratio: DFloat16,
    pub update_period_seconds: u16,
    pub margin_initial: DFloat16,
    pub margin_maintenance: DFloat16,
    pub funding_1: DFloat16,
    pub funding_2: DFloat16,
    pub funding_2_delta: DFloat16,
    pub funding_2_decay: DFloat16,
    pub funding_pool_0: DFloat16,
    pub funding_pool_1: DFloat16,
    pub funding_share: DFloat16,
    pub fee_0: DFloat16,
    pub fee_1: DFloat16,
}

impl View for PairConfigCompressed {
    type V = PairConfigCompressedView;

    open spec fn view(&self) -> PairConfigCompressedView {
        PairConfigCompressedView {
            pair_id: self.pair_id@,
            oi_max: self.oi_max,
            trade_size_min: self.trade_size_min,
            update_price_delta_ratio: self.update_price_delta_ratio,
            update_period_seconds: self.update_period_seconds,
            margin_initial: self.margin_initial,
            margin_maintenance: self.margin_maintenance,
            funding_1: self.funding_1,
            funding_2: self.funding_2,
            funding_2_delta: self.funding_2_delta,
            funding_2_decay: self.funding_2_decay,
            funding_pool_0: self.funding_pool_0,
            funding_pool_1: self.funding_pool_1,
            funding_share: self.funding_share,
            fee_0: self.fee_0,
            fee_1: self.fee_1,
        }
    }
}

/// The numbers of a [`CollateralConfigCompressed`], with its feed as text.
pub struct CollateralConfigCompressedView {
    pub pair_id: Seq<char>,
    pub discount: DFloat16,
    pub margin: DFloat16,
}

impl View for CollateralConfigCompressed {
    type V = CollateralConfigCompressedView;

    open spec fn view(&self) -> CollateralConfigCompressedView {
        CollateralConfigCompressedView { pair_id: self.pair_id@, discount: self.discount, margin: self.margin }
    }
}

/// Whether every decimal of an exchange's settings can be stored in 16 bits.
pub open spec fn exchange_compressible(c: ExchangeConfig) -> bool {
    &&& compressible(c.skew_ratio_cap@)
    &&& compressible(c.adl_offset@)
    &&& compressible(c.adl_a@)
    &&& compressible(c.adl_b@)
    &&& compressible(c.fee_liquidity_add@)
    &&& compressible(c.fee_liquidity_remove@)
    &&& compressible(c.fee_share_protocol@)
    &&& compressible(c.fee_share_treasury@)
    &&& compressible(c.fee_share_referral@)
    &&& compressible(c.fee_max@)
    &&& compressible(c.protocol_burn_amount@)
    &&& compressible(c.reward_keeper@)
}

/// Whether every decimal of a pair's settings can be stored in 16 bits.
pub open spec fn pair_compressible(c: PairConfig) -> bool {
    &&& compressible(c.oi_max@)
    &&& compressible(c.trade_size_min@)
    &&& compressible(c.update_price_delta_ratio@)
    &&& compressible(c.margin_initial@)
    &&& compressible(c.margin_maintenance@)
    &&& compressible(c.funding_1@)
    &&& compressible(c.funding_2@)
    &&& compressible(c.funding_2_delta@)
    &&& compressible(c.funding_2_decay@)
    &&& compressible(c.funding_pool_0@)
    &&& compressible(c.funding_pool_1@)
    &&& compressible(c.funding_share@)
    &&& compressible(c.fee_0@)
    &&& compressible(c.fee_1@)
}

/// Whether both decimals of a collateral's settings can be stored in 16 bits.
pub open spec fn collateral_compressible(c: CollateralConfig) -> bool {
    compressible(c.discount@) && compressible(c.margin@)
}

/// The exchange's settings as stored.
pub open spec fn compressed_exchange(c: ExchangeConfig) -> ExchangeConfigCompressed {
    ExchangeConfigCompressed {
        max_price_age_seconds: c.max_price_age_seconds as u32,
        positions_max: c.positions_max,
        collaterals_max: c.collaterals_max,
        active_requests_max: c.active_requests_max,
        skew_ratio_cap: packed(c.skew_ratio_cap@),
        adl_offset: packed(c.adl_offset@),
        adl_a: packed(c.adl_a@),
        adl_b: packed(c.adl_b@),
        fee_liquidity_add: packed(c.fee_liquidity_add@),
        fee_liquidity_remove: packed(c.fee_liquidity_remove@),
        fee_share_protocol: packed(c.fee_share_protocol@),
        fee_share_treasury: packed(c.fee_share_treasury@),
        fee_share_referral: packed(c.fee_share_referral@),
        fee_max: packed(c.fee_max@),
        protocol_burn_amount: packed(c.protocol_burn_amount@),
        keeper_reward: packed(c.reward_keeper@),
    }
}

/// A pair's settings as stored.
pub open spec fn compressed_pair(c: PairConfig) -> PairConfigCompressedView {
    PairConfigCompressedView {
        pair_id: c.pair_id@,
        oi_max: packed(c.oi_max@),
        trade_size_min: packed(c.trade_size_min@),
        update_price_delta_ratio: packed(c.update_price_delta_ratio@),
        update_period_seconds: c.update_period_seconds as u16,
        margin_initial: packed(c.margin_initial@),
        margin_maintenance: packed(c.margin_maintenance@),
        funding_1: packed(c.funding_1@),
        funding_2: packed(c.funding_2@),
        funding_2_delta: packed(c.funding_2_delta@),
        funding_2_decay: packed(c.funding_2_decay@),
        funding_pool_0: packed(c.funding_pool_0@),
        funding_pool_1: packed(c.funding_pool_1@),
        funding_share: packed(c.funding_share@),
        fee_0: packed(c.fee_0@),
        fee_1: packed(c.fee_1@),
    }
}

/// A collateral's settings as stored.
pub open spec fn compressed_collateral(c: CollateralConfig) -> CollateralConfigCompressedView {
    CollateralConfigCompressedView { pair_id: c.pair_id@, discount: packed(c.discount@), margin: packed(c.margin@) }
}

/// Whether `p` holds the decimals that the stored pair settings `c` stand for.
pub open spec fn decompressed_pair(p: PairConfig, c: PairConfigCompressedView) -> bool {
    &&& p.pair_id@ == c.pair_id
    &&& p.update_period_seconds == c.update_period_seconds as i64
    &&& p.oi_max@ == c.oi_max.value()
    &&& p.trade_size_min@ == c.trade_size_min.value()
    &&& p.update_price_delta_ratio@ == c.update_price_delta_ratio.value()
    &&& p.margin_initial@ == c.margin_initial.value()
    &&& p.margin_maintenance@ == c.margin_maintenance.value()
    &&& p.funding_1@ == c.funding_1.value()
    &&& p.funding_2@ == c.funding_2.value()
    &&& p.funding_2_delta@ == c.funding_2_delta.value()
    &&& p.funding_2_decay@ == c.funding_2_decay.value()
    &&& p.funding_pool_0@ == c.funding_pool_0.value()
    &&& p.funding_pool_1@ == c.funding_pool_1.value()
    &&& p.funding_share@ == c.funding_share.value()
    &&& p.fee_0@ == c.fee_0.value()
    &&& p.fee_1@ == c.fee_1.value()
}

/// Whether `p` holds the decimals that the stored collateral settings `c` stand for.
pub open spec fn decompressed_collateral(p: CollateralConfig, c: CollateralConfigCompressedView) -> bool {
    &&& p.pair_id@ == c.pair_id
    &&& p.discount@ == c.discount.value()
    &&& p.margin@ == c.margin.value()
}

impl PairConfigCompressed {
    /// A copy of the stored settings.
    pub fn copy(&self) -> (r: PairConfigCompressed)
        ensures
            r@ == self@,
    {
        PairConfigCompressed {
            pair_id: self.pair_id.clone(),
            oi_max: self.oi_max,
            trade_size_min: self.trade_size_min,
            update_price_delta_ratio: self.update_price_delta_ratio,
            update_period_seconds: self.update_period_seconds,
            margin_initial: self.margin_initial,
            margin_maintenance: self.margin_maintenance,
            funding_1: self.funding_1,
            funding_2: self.funding_2,
            funding_2_delta: self.funding_2_delta,
            funding_2_decay: self.funding_2_decay,
            funding_pool_0: self.funding_pool_0,
            funding_pool_1: self.funding_pool_1,
            funding_share: self.funding_share,
            fee_0: self.fee_0,
            fee_1: self.fee_1,
        }
    }
}

impl CollateralConfigCompressed {
    /// A copy of the stored settings.
    pub fn copy(&self) -> (r: CollateralConfigCompressed)
        ensures
            r@ == self@,
    {
        CollateralConfigCompressed { pair_id: self.pair_id.clone(), discount: self.discount, margin: self.margin }
    }
}

} // verus!
