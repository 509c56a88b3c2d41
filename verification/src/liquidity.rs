use vstd::prelude::*;
use crate::common::{ExchangeError, ResourceAddress};
use crate::config::VirtualConfig;
use crate::decimal::{Decimal, abs, in_range, odiv, omax, omul, osub, place_unit, round_to_zero_to, scale, tdiv};
use crate::exchange::{
    assert_pool_integrity, fee_shares, fees_basic_computable, settle_fees_basic, state_pool_value, pool_value,
};
use crate::pool::VirtualLiquidityPool;
use crate::state::PoolState;

verus! {

/// What adding `value` base tokens of liquidity gives, with `lp_supply` pool
/// tokens in circulation: the fee, the pool tokens minted and their price. The
/// first liquidity gets one pool token per base token after the fee; later
/// liquidity is priced at the pool's value (at least one) per pool token.
pub open spec fn add_liquidity_spec(config: VirtualConfig, p: PoolState, value: int, lp_supply: int) -> Option<(int, int, int)> {
    let fee = omul(Some(value), Some(config.exchange_config.fee_liquidity_add@));
    match (fee, omax(state_pool_value(p), Some(scale()))) {
        (Some(f), Some(pv)) => if lp_supply == 0 {
            match osub(Some(value), Some(f)) {
                Some(amount) => Some((f, amount, scale())),
                None => None,
            }
        } else {
            let price = odiv(Some(pv), Some(lp_supply));
            match (price, odiv(osub(Some(value), Some(f)), price)) {
                (Some(pr), Some(amount)) => Some((f, amount, pr)),
                _ => None,
            }
        },
        _ => None,
    }
}

/// What a change of liquidity did, as the exchange reports it.
pub struct LiquidityChange {
    pub lp_price: Decimal,
    /// Pool tokens minted (negative when burnt).
    pub lp_amount: Decimal,
    /// Base tokens paid in (negative when paid out).
    pub amount: Decimal,
    pub fee_pool: Decimal,
    pub fee_protocol: Decimal,
    pub fee_treasury: Decimal,
}

/// Adds `value` base tokens (in `resource`) of liquidity to the pool, with
/// `lp_supply` pool tokens in circulation (see [`add_liquidity_spec`]): the
/// tokens go into the pool and the fee is split (see [`settle_fees_basic`]).
/// Refused unless the payment is in the base resource.
pub fn add_liquidity(
    config: &VirtualConfig,
    pool: &mut VirtualLiquidityPool,
    base_resource: ResourceAddress,
    resource: ResourceAddress,
    value: Decimal,
    lp_supply: Decimal,
) -> (r: Result<LiquidityChange, ExchangeError>)
    requires
        resource == base_resource ==> (add_liquidity_spec(*config, old(pool).state(), value@, lp_supply@) matches Some((fee, _, _))
            && in_range(old(pool).base_tokens_amount@ + value@) && fees_basic_computable(
            config.exchange_config,
            *old(pool),
            fee,
        )),
    ensures
        resource != base_resource ==> r == Err::<LiquidityChange, ExchangeError>(ExchangeError::InvalidPaymentToken),
        resource == base_resource ==> (r matches Ok(x) && {
            let (fee, amount, price) = add_liquidity_spec(*config, old(pool).state(), value@, lp_supply@).unwrap();
            let (pr, t) = fee_shares(config.exchange_config, fee);
            &&& x.lp_amount@ == amount && x.lp_price@ == price && x.amount == value
            &&& x.fee_protocol@ == -pr && x.fee_treasury@ == -t && x.fee_pool@ == -(fee - pr - t)
            &&& final(pool).state() == (PoolState {
                base: old(pool).base_tokens_amount@ + value@,
                virtual_balance: old(pool).virtual_balance@ - pr - t,
                ..old(pool).state()
            })
        }),
{
    if resource != base_resource {
        return Err(ExchangeError::InvalidPaymentToken);
    }
    let fee = value.mul(config.exchange_config.fee_liquidity_add);
    let pool_value = pool_value(pool).max(Decimal::one());
    let (lp_amount, lp_price) = if lp_supply.is_zero() {
        (value.sub(fee), Decimal::one())
    } else {
        let lp_price = pool_value.div(lp_supply);
        (value.sub(fee).div(lp_price), lp_price)
    };
    pool.deposit(value);
    let (fee_pool, fee_protocol, fee_treasury) = settle_fees_basic(config, pool, fee);
    Ok(LiquidityChange { lp_price, lp_amount, amount: value, fee_pool, fee_protocol, fee_treasury })
}

/// What removing `lp_amount` pool tokens of `lp_supply` in circulation gives:
/// their price (the pool's value, at least zero, per pool token), their value,
/// the fee and the base tokens to pay out (the value less the fee).
pub open spec fn remove_liquidity_spec(config: VirtualConfig, p: PoolState, lp_amount: int, lp_supply: int) -> Option<
    (int, int, int, int),
> {
    match omax(state_pool_value(p), Some(0)) {
        Some(pv) => {
            let price = odiv(Some(pv), Some(lp_supply));
            let value = omul(Some(lp_amount), price);
            let fee = omul(value, Some(config.exchange_config.fee_liquidity_remove@));
            match (price, value, fee, osub(value, fee)) {
                (Some(pr), Some(v), Some(f), Some(w)) => Some((pr, v, f, w)),
                _ => None,
            }
        },
        None => None,
    }
}

/// The pool after paying out `w` base tokens and splitting the fee `f`.
pub open spec fn after_removal(config: VirtualConfig, p: PoolState, w: int, f: int) -> PoolState {
    let (pr, t) = fee_shares(config.exchange_config, f);
    PoolState { base: p.base - w, virtual_balance: p.virtual_balance - pr - t, ..p }
}

/// Removes `lp_amount` pool tokens (in `resource`) of `lp_supply` in
/// circulation (see [`remove_liquidity_spec`]) from a pool whose base resource
/// has `places` decimal places: refused unless the tokens are pool tokens and
/// the pool holds the base tokens to pay out; the amount leaves the pool's
/// base tokens, the holder receives it rounded toward zero, and the fee is
/// split; refused when the pool's skew ratio is then at its cap. On an error
/// the operation is void and the working copy is to be dropped.
pub fn remove_liquidity(
    config: &VirtualConfig,
    pool: &mut VirtualLiquidityPool,
    lp_resource: ResourceAddress,
    resource: ResourceAddress,
    lp_amount: Decimal,
    lp_supply: Decimal,
    places: u8,
) -> (r: Result<LiquidityChange, ExchangeError>)
    requires
        places <= 18,
        resource == lp_resource ==> (remove_liquidity_spec(*config, old(pool).state(), lp_amount@, lp_supply@) matches Some(
            (_, _, f, w),
        ) && (w <= old(pool).base_tokens_amount@ ==> in_range(old(pool).base_tokens_amount@ - w) && in_range(-lp_amount@)
            && in_range(-round_to_zero_to(w, place_unit(places))) && fees_basic_computable(
            config.exchange_config,
            *old(pool),
            f,
        ) && crate::exchange::state_skew_ratio(after_removal(*config, old(pool).state(), w, f)) is Some)),
    ensures
        resource != lp_resource ==> r == Err::<LiquidityChange, ExchangeError>(ExchangeError::InvalidLpToken),
        resource == lp_resource ==> {
            let (price, value, fee, w) = remove_liquidity_spec(*config, old(pool).state(), lp_amount@, lp_supply@).unwrap();
            let (pr, t) = fee_shares(config.exchange_config, fee);
            &&& w > old(pool).base_tokens_amount@ ==> r == Err::<LiquidityChange, ExchangeError>(
                ExchangeError::WithdrawalInsufficientPoolTokens,
            )
            &&& w <= old(pool).base_tokens_amount@ ==> {
                let after = after_removal(*config, old(pool).state(), w, fee);
                &&& final(pool).state() == after
                &&& (r is Ok <==> crate::exchange::state_skew_ratio(after).unwrap()
                    < config.exchange_config.skew_ratio_cap@)
                &&& r is Err ==> r == Err::<LiquidityChange, ExchangeError>(ExchangeError::SkewTooHigh)
                &&& r matches Ok(x) ==> x.lp_price@ == price && x.lp_amount@ == -lp_amount@ && x.amount@ == -round_to_zero_to(
                    w,
                    place_unit(places),
                ) && x.fee_protocol@ == -pr && x.fee_treasury@ == -t && x.fee_pool@ == -(fee - pr - t)
            }
        },
{
    if resource != lp_resource {
        return Err(ExchangeError::InvalidLpToken);
    }
    let pool_value = pool_value(pool).max(Decimal::zero());
    let lp_price = pool_value.div(lp_supply);
    let value = lp_amount.mul(lp_price);
    let fee = value.mul(config.exchange_config.fee_liquidity_remove);
    let withdraw_amount = value.sub(fee);
    if withdraw_amount.gt(pool.base_tokens_amount) {
        return Err(ExchangeError::WithdrawalInsufficientPoolTokens);
    }
    pool.withdraw(withdraw_amount);
    let paid = withdraw_amount.round_to_zero(places);
    let (fee_pool, fee_protocol, fee_treasury) = settle_fees_basic(config, pool, fee);
    assert_pool_integrity(config, pool, Decimal::zero())?;
    Ok(LiquidityChange { lp_price, lp_amount: lp_amount.neg(), amount: paid.neg(), fee_pool, fee_protocol, fee_treasury })
}

/// Truncated division of a number that is not negative is floor division.
proof fn lemma_tdiv_nonneg(a: int, b: int)
    requires
        a >= 0,
        b > 0,
    ensures
        tdiv(a, b) == a / b,
        a / b >= 0,
        (a / b) * b <= a < (a / b + 1) * b,
{
    assert(abs(a) == a && abs(b) == b);
    assert(a / b >= 0 && (a / b) * b <= a < (a / b + 1) * b) by (nonlinear_arith)
        requires
            a >= 0,
            b > 0,
    ;
}

/// The heart of the round trip: pool tokens bought at the floored price `p`
/// and sold at the floored price `q` of a pool worth at most what it was worth
/// plus the payment bring back no more than the payment.
proof fn lemma_round_trip_core(p: int, q: int, s: int, vm: int, v: int, lp: int, v1: int, u: int)
    requires
        u > 0,
        s > 0,
        v >= 0,
        lp >= 0,
        p * s <= vm * u < (p + 1) * s,
        lp * p <= v * u,
        0 <= v1 <= vm + v,
        q >= 0,
        q * (s + lp) <= v1 * u,
    ensures
        lp * q <= v * u,
{
    if q <= p {
        assert(lp * q <= lp * p) by (nonlinear_arith)
            requires
                lp >= 0,
                q <= p,
        ;
    } else {
        assert(q * s >= (p + 1) * s) by (nonlinear_arith)
            requires
                q >= p + 1,
                s > 0,
        ;
        assert(lp * q == q * (s + lp) - q * s) by (nonlinear_arith);
        assert(v1 * u <= vm * u + v * u) by (nonlinear_arith)
            requires
                v1 <= vm + v,
                u > 0,
        ;
    }
}

/// Adding liquidity and at once removing the pool tokens it minted never
/// returns more base tokens than were paid in, before or after rounding the
/// payout to the base resource's places: with settings that follow the rules
/// and a fee of at most everything, when pool tokens were already in
/// circulation, or none were and the pool was worth nothing.
pub proof fn law_liquidity_round_trip(config: VirtualConfig, p: PoolState, value: int, lp_supply: int, places: u8)
    requires
        config.exchange_config.spec_validate() is Ok,
        config.exchange_config.fee_liquidity_add@ <= scale(),
        value >= 0,
        lp_supply > 0 || (lp_supply == 0 && (state_pool_value(p) matches Some(x) && x <= 0)),
        places <= 18,
        add_liquidity_spec(config, p, value, lp_supply) is Some,
        ({
            let (f, lp, _) = add_liquidity_spec(config, p, value, lp_supply).unwrap();
            let (pr, t) = fee_shares(config.exchange_config, f);
            let p1 = PoolState { base: p.base + value, virtual_balance: p.virtual_balance - pr - t, ..p };
            remove_liquidity_spec(config, p1, lp, lp_supply + lp) is Some
        }),
    ensures
        ({
            let (f, lp, _) = add_liquidity_spec(config, p, value, lp_supply).unwrap();
            let (pr, t) = fee_shares(config.exchange_config, f);
            let p1 = PoolState { base: p.base + value, virtual_balance: p.virtual_balance - pr - t, ..p };
            let (_, _, _, w) = remove_liquidity_spec(config, p1, lp, lp_supply + lp).unwrap();
            &&& w <= value
            &&& round_to_zero_to(w, place_unit(places)) <= value
        }),
{
    let ec = config.exchange_config;
    let u = scale();
    let (f, lp, price) = add_liquidity_spec(config, p, value, lp_supply).unwrap();
    // the fee is a share of the payment between nothing and all of it
    lemma_tdiv_nonneg(value * ec.fee_liquidity_add@, u);
    assert(0 <= value * ec.fee_liquidity_add@ <= value * u) by (nonlinear_arith)
        requires
            value >= 0,
            0 <= ec.fee_liquidity_add@ <= u,
    ;
    assert(0 <= f <= value) by (nonlinear_arith)
        requires
            f == (value * ec.fee_liquidity_add@) / u,
            0 <= value * ec.fee_liquidity_add@ <= value * u,
            u > 0,
    ;
    let (pr, t) = fee_shares(ec, f);
    lemma_tdiv_nonneg(f * ec.fee_share_protocol@, u);
    lemma_tdiv_nonneg(f * ec.fee_share_treasury@, u);
    assert(f * ec.fee_share_protocol@ >= 0 && f * ec.fee_share_treasury@ >= 0) by (nonlinear_arith)
        requires
            f >= 0,
            ec.fee_share_protocol@ >= 0,
            ec.fee_share_treasury@ >= 0,
    ;
    let p1 = PoolState { base: p.base + value, virtual_balance: p.virtual_balance - pr - t, ..p };
    let v0 = state_pool_value(p).unwrap();
    let v1 = state_pool_value(p1).unwrap();
    assert(v1 == v0 + value - pr - t);
    assert(v1 <= v0 + value);
    let (price2, val, fee2, w) = remove_liquidity_spec(config, p1, lp, lp_supply + lp).unwrap();
    let v1p = if v1 >= 0 { v1 } else { 0 };
    let n = lp_supply + lp;
    let vm = if v0 >= u { v0 } else { u };
    let vin = value - f;
    if lp_supply > 0 {
        // the price at which the tokens were bought, and how many were bought
        lemma_tdiv_nonneg(vm * u, lp_supply);
        assert(vm * u >= 0) by (nonlinear_arith)
            requires
                vm >= u,
                u > 0,
        ;
        assert(price == (vm * u) / lp_supply);
        assert(price > 0);
        assert(vin * u >= 0) by (nonlinear_arith)
            requires
                vin >= 0,
                u > 0,
        ;
        lemma_tdiv_nonneg(vin * u, price);
        assert(lp == (vin * u) / price);
        assert(lp * price <= value * u) by (nonlinear_arith)
            requires
                lp * price <= vin * u,
                vin <= value,
                u > 0,
                lp >= 0,
                price > 0,
        ;
    } else {
        assert(lp == vin);
        assert(v0 <= 0);
    }
    assert(lp >= 0);
    assert(n > 0) by {
        if lp_supply == 0 {
            if lp == 0 {
                // selling no tokens of a supply of none cannot be priced
                assert(n == 0);
            }
        }
    }
    assert(v1p * u >= 0) by (nonlinear_arith)
        requires
            v1p >= 0,
            u > 0,
    ;
    lemma_tdiv_nonneg(v1p * u, n);
    assert(price2 == (v1p * u) / n);
    let q = price2;
    assert(lp * q <= value * u) by {
        if lp_supply > 0 {
            lemma_round_trip_core(price, q, lp_supply, vm, value, lp, v1p, u);
        } else {
            assert(q * n <= v1p * u);
            assert(v1p <= value);
            assert(lp * q <= v1p * u) by (nonlinear_arith)
                requires
                    q * n <= v1p * u,
                    n == lp,
                ;
            assert(v1p * u <= value * u) by (nonlinear_arith)
                requires
                    v1p <= value,
                    u > 0,
            ;
        }
    }
    assert(lp * q >= 0) by (nonlinear_arith)
        requires
            lp >= 0,
            q >= 0,
    ;
    lemma_tdiv_nonneg(lp * q, u);
    assert(val == (lp * q) / u);
    assert(val <= value) by (nonlinear_arith)
        requires
            val == (lp * q) / u,
            lp * q <= value * u,
            u > 0,
    ;
    assert(val >= 0);
    assert(val * ec.fee_liquidity_remove@ >= 0) by (nonlinear_arith)
        requires
            val >= 0,
            ec.fee_liquidity_remove@ >= 0,
    ;
    lemma_tdiv_nonneg(val * ec.fee_liquidity_remove@, u);
    assert(w <= value);
    // rounding toward zero never moves away from zero
    let unit = place_unit(places);
    crate::d_float::lemma_pow10_mono(0, (18 - places) as nat);
    assert(unit > 0);
    if w >= 0 {
        lemma_tdiv_nonneg(w, unit);
    } else {
        lemma_tdiv_nonneg(-w, unit);
        assert(tdiv(w, unit) == -((-w) / unit));
        assert(tdiv(w, unit) * unit <= 0) by (nonlinear_arith)
            requires
                tdiv(w, unit) <= 0,
                unit > 0,
        ;
    }
}

} // verus!
