use vstd::prelude::*;
use crate::account::{
    VirtualMarginAccount, add_amounts, coll_views, deposit_entries, deposit_total, lemma_coll_views_key,
    map_balance, withdraw_entries,
};
use crate::common::{ExchangeError, ResourceAddress};
use crate::config::VirtualConfig;
use crate::decimal::{Decimal, div_attos, in_range, mul_attos, oadd, odiv, omul, place_unit, round_to_zero_to, round_up_to};
use crate::exchange::{
    assert_account_integrity, assert_collaterals_limit, assert_valid_collateral, is_collateral, settle_account,
    settle_step,
};
use crate::liquidation::{claim_total, coll_balance, deposit_fits, lemma_claim_total};
use crate::map::{AssocMap, MapKey, has_key, key_pos, keys_distinct};
use crate::oracle::VirtualOracle;
use crate::pool::VirtualLiquidityPool;
use crate::state::{AccountState, PoolState};
use crate::trade::state_health;

verus! {

/// The tokens that are not of the resource `base`, in order.
pub open spec fn non_base(tokens: Seq<(ResourceAddress, int)>, base: ResourceAddress) -> Seq<(ResourceAddress, int)>
    decreases tokens.len(),
{
    if tokens.len() == 0 {
        Seq::empty()
    } else {
        let rest = non_base(tokens.drop_last(), base);
        if tokens.last().0 != base {
            rest.push(tokens.last())
        } else {
            rest
        }
    }
}

/// The pool and account after each token of the resource `base` among
/// `tokens`, in turn, goes into the pool and is credited to the account's
/// virtual balance.
pub open spec fn base_deposits(p: PoolState, a: AccountState, tokens: Seq<(ResourceAddress, int)>, base: ResourceAddress) -> Option<
    (PoolState, AccountState),
>
    decreases tokens.len(),
{
    if tokens.len() == 0 {
        Some((p, a))
    } else {
        match base_deposits(p, a, tokens.drop_last(), base) {
            Some((q, b)) => {
                let (res, amount) = tokens.last();
                if res == base {
                    if in_range(q.base + amount) {
                        settle_step(PoolState { base: q.base + amount, ..q }, b, amount)
                    } else {
                        None
                    }
                } else {
                    Some((q, b))
                }
            },
            None => None,
        }
    }
}

pub proof fn lemma_base_deposits_prefix(p: PoolState, a: AccountState, tokens: Seq<(ResourceAddress, int)>, base: ResourceAddress, n: int)
    requires
        0 <= n <= tokens.len(),
        base_deposits(p, a, tokens, base) is Some,
    ensures
        base_deposits(p, a, tokens.subrange(0, n), base) is Some,
    decreases tokens.len() - n,
{
    if n < tokens.len() {
        lemma_base_deposits_prefix(p, a, tokens, base, n + 1);
        assert(tokens.subrange(0, n + 1).drop_last() =~= tokens.subrange(0, n));
    } else {
        assert(tokens.subrange(0, n) =~= tokens);
    }
}

/// Whether every token is of a resource that counts as collateral.
pub open spec fn all_collateral(config: VirtualConfig, tokens: Seq<(ResourceAddress, int)>) -> bool {
    forall|i: int| 0 <= i < tokens.len() ==> is_collateral(config, #[trigger] tokens[i].0)
}

/// Adding tokens to an account: those of the base resource go into the pool
/// and are credited to the account's virtual balance (see [`base_deposits`]);
/// refused when another token is of a resource that does not count as
/// collateral; the others are added to the collateral balances; refused when
/// the account then holds too many collateral resources.
pub open spec fn add_collateral_spec(
    config: VirtualConfig,
    p: PoolState,
    a: AccountState,
    tokens: Seq<(ResourceAddress, int)>,
    base: ResourceAddress,
) -> Option<Result<(PoolState, AccountState), ExchangeError>> {
    match base_deposits(p, a, tokens, base) {
        Some((p1, a1)) => {
            let others = non_base(tokens, base);
            if !all_collateral(config, others) {
                Some(Err(ExchangeError::InvalidCollateral))
            } else if !deposit_fits(a1.collaterals, others) {
                None
            } else {
                let a2 = AccountState { collaterals: deposit_entries(a1.collaterals, others), ..a1 };
                if a2.collaterals.len() > config.exchange_config.collaterals_max {
                    Some(Err(ExchangeError::CollateralsTooMany))
                } else {
                    Some(Ok((p1, a2)))
                }
            }
        },
        None => None,
    }
}

/// Makes a deposit that fits a list of balances fit the account's balances.
proof fn lemma_deposit_fits(account: VirtualMarginAccount, tokens: Seq<(ResourceAddress, Decimal)>)
    requires
        keys_distinct(account.collateral_balances.entries()),
        deposit_fits(account.state().collaterals, coll_views(tokens)),
    ensures
        forall|res: ResourceAddress| in_range(account.collateral_of(res) + deposit_total(tokens, res)),
{
    assert forall|res: ResourceAddress| in_range(account.collateral_of(res) + deposit_total(tokens, res)) by {
        lemma_claim_total(tokens, res);
        lemma_coll_views_key(account.collateral_balances.entries(), res);
        assert(in_range(coll_balance(account.state().collaterals, res) + claim_total(coll_views(tokens), res)));
    }
}

/// Adds tokens (resource and amount) to the account (see
/// [`add_collateral_spec`]). On an error the operation is void and the working
/// copies are to be dropped.
#[verifier::loop_isolation(false)]
pub fn add_collateral(
    config: &VirtualConfig,
    pool: &mut VirtualLiquidityPool,
    account: &mut VirtualMarginAccount,
    base_resource: ResourceAddress,
    tokens: &Vec<(ResourceAddress, Decimal)>,
) -> (r: Result<(), ExchangeError>)
    requires
        forall|i: int| 0 <= i < tokens@.len() ==> #[trigger] tokens@[i].1@ >= 0,
        add_collateral_spec(*config, old(pool).state(), old(account).state(), coll_views(tokens@), base_resource) is Some,
    ensures
        match add_collateral_spec(*config, old(pool).state(), old(account).state(), coll_views(tokens@), base_resource).unwrap() {
            Ok((p, a)) => r is Ok && final(pool).state() == p && final(account).state() == a,
            Err(e) => r == Err::<(), ExchangeError>(e),
        },
        r is Ok ==> final(account).requests() == old(account).requests() && final(account).address == old(
            account,
        ).address && final(account).active_requests_len == old(account).active_requests_len,
{
    let ghost p0 = pool.state();
    let ghost a0 = account.state();
    let ghost views = coll_views(tokens@);
    let mut others: Vec<(ResourceAddress, Decimal)> = Vec::new();
    let mut i: usize = 0;
    assert(views.subrange(0, 0) =~= Seq::<(ResourceAddress, int)>::empty());
    assert(coll_views(others@) =~= Seq::<(ResourceAddress, int)>::empty());
    while i < tokens.len()
        invariant
            i <= tokens@.len(),
            views == coll_views(tokens@),
            forall|j: int| 0 <= j < tokens@.len() ==> #[trigger] tokens@[j].1@ >= 0,
            forall|j: int| 0 <= j < others@.len() ==> #[trigger] others@[j].1@ >= 0,
            base_deposits(p0, a0, views, base_resource) is Some,
            base_deposits(p0, a0, views.subrange(0, i as int), base_resource) == Some((pool.state(), account.state())),
            coll_views(others@) == non_base(views.subrange(0, i as int), base_resource),
            account.requests() == old(account).requests(),
            account.address == old(account).address,
            account.active_requests_len == old(account).active_requests_len,
        decreases tokens@.len() - i,
    {
        let (resource, amount) = tokens[i];
        proof {
            lemma_base_deposits_prefix(p0, a0, views, base_resource, i as int + 1);
            assert(views.subrange(0, i as int + 1).drop_last() =~= views.subrange(0, i as int));
            assert(views.subrange(0, i as int + 1).last() == (resource, amount@));
        }
        if resource == base_resource {
            pool.deposit(amount);
            settle_account(pool, account, amount);
        } else {
            let ghost o = others@;
            others.push((resource, amount));
            assert(coll_views(others@) =~= coll_views(o).push((resource, amount@)));
        }
        i = i + 1;
    }
    assert(views.subrange(0, tokens@.len() as int) =~= views);
    let mut j: usize = 0;
    while j < others.len()
        invariant
            j <= others@.len(),
            forall|k: int| 0 <= k < j ==> is_collateral(*config, #[trigger] others@[k].0),
        decreases others@.len() - j,
    {
        let valid = assert_valid_collateral(config, &others[j].0);
        if valid.is_err() {
            proof {
                assert(coll_views(others@)[j as int].0 == others@[j as int].0);
                assert(!is_collateral(*config, coll_views(others@)[j as int].0));
            }
            return Err(ExchangeError::InvalidCollateral);
        }
        j = j + 1;
    }
    proof {
        assert forall|k: int| 0 <= k < coll_views(others@).len() implies is_collateral(*config, #[trigger] coll_views(others@)[k].0) by {
            assert(coll_views(others@)[k].0 == others@[k].0);
        }
        use_type_invariant(&account.collateral_balances);
        AssocMap::lemma_inv_distinct(account.collateral_balances);
        lemma_deposit_fits(*account, others@);
    }
    account.deposit_collateral_batch(&others);
    assert_collaterals_limit(config, account)
}

/// Paying a fee with a fee oath of `amount` in `resource` (the oath resource is
/// `oath`): refused unless it is an oath; the amount leaves the account's
/// virtual balance; refused when the account's value then does not cover its
/// margin.
pub open spec fn fee_oath_spec(
    config: VirtualConfig,
    p: PoolState,
    a: AccountState,
    oracle: VirtualOracle,
    oath: ResourceAddress,
    resource: ResourceAddress,
    amount: int,
) -> Option<Result<AccountState, ExchangeError>> {
    if resource != oath {
        Some(Err(ExchangeError::InvalidFeeOath))
    } else if !(in_range(-amount) && in_range(a.virtual_balance - amount)) {
        None
    } else {
        let a1 = AccountState { virtual_balance: a.virtual_balance - amount, ..a };
        match state_health(config, p, a1, oracle) {
            Some((value, margin)) => if value >= margin {
                Some(Ok(a1))
            } else {
                Some(Err(ExchangeError::InsufficientMargin))
            },
            None => None,
        }
    }
}

/// Charges the account a fee paid with a fee oath (see [`fee_oath_spec`]). On
/// an error the operation is void and the working copy is to be dropped.
pub fn settle_fee_oath(
    config: &VirtualConfig,
    pool: &VirtualLiquidityPool,
    account: &mut VirtualMarginAccount,
    oracle: &VirtualOracle,
    oath: ResourceAddress,
    resource: ResourceAddress,
    amount: Decimal,
) -> (r: Result<(), ExchangeError>)
    requires
        fee_oath_spec(*config, pool.state(), old(account).state(), *oracle, oath, resource, amount@) is Some,
    ensures
        match fee_oath_spec(*config, pool.state(), old(account).state(), *oracle, oath, resource, amount@).unwrap() {
            Ok(a) => r is Ok && final(account).state() == a,
            Err(e) => r == Err::<(), ExchangeError>(e),
        },
        r is Ok ==> final(account).requests() == old(account).requests() && final(account).address == old(
            account,
        ).address && final(account).active_requests_len == old(account).active_requests_len
            && final(account).requests_len == old(account).requests_len,
{
    if resource != oath {
        return Err(ExchangeError::InvalidFeeOath);
    }
    account.add_virtual_balance(amount.neg());
    assert_account_integrity(config, pool, account, oracle)
}

/// The claims with the amounts of each resource added up, in the order in
/// which the resources are first named.
pub fn aggregate_claims(claims: &Vec<(ResourceAddress, Decimal)>) -> (r: Vec<(ResourceAddress, Decimal)>)
    requires
        forall|i: int| 0 <= i < claims@.len() ==> #[trigger] claims@[i].1@ >= 0,
        deposit_fits(Seq::empty(), coll_views(claims@)),
    ensures
        coll_views(r@) == deposit_entries(Seq::empty(), coll_views(claims@)),
        keys_distinct(r@),
{
    let mut m: AssocMap<ResourceAddress, Decimal> = AssocMap::new();
    proof {
        assert forall|res: ResourceAddress| in_range(map_balance(m, res) + deposit_total(claims@, res)) by {
            lemma_claim_total(claims@, res);
            assert(coll_balance(Seq::empty(), res) == 0);
        }
        assert(coll_views(m.entries()) =~= Seq::<(ResourceAddress, int)>::empty());
    }
    add_amounts(&mut m, claims);
    proof {
        use_type_invariant(&m);
        AssocMap::lemma_inv_distinct(m);
    }
    m.to_vec()
}

/// Checking and paying out aggregated claims in turn: a claim on the base
/// resource is paid from the pool (its amount leaves the pool's base tokens;
/// the holder receives it rounded toward zero to `places` decimal places, which
/// leaves the account's virtual balance), refused when it passes the account's
/// virtual balance or the pool's base tokens; a claim on another resource is
/// refused when it passes the account's balance of it, and is kept to be
/// withdrawn. Hands back the pool, the account, the claims kept and the base
/// tokens paid.
pub open spec fn claims_step(
    p: PoolState,
    a: AccountState,
    claims: Seq<(ResourceAddress, int)>,
    base: ResourceAddress,
    places: u8,
) -> Option<Result<(PoolState, AccountState, Seq<(ResourceAddress, int)>, Seq<(ResourceAddress, int)>), ExchangeError>>
    decreases claims.len(),
{
    if claims.len() == 0 {
        Some(Ok((p, a, Seq::empty(), Seq::empty())))
    } else {
        match claims_step(p, a, claims.drop_last(), base, places) {
            Some(Ok((q, b, kept, paid))) => {
                let (res, amount) = claims.last();
                if res == base {
                    if amount > b.virtual_balance {
                        Some(Err(ExchangeError::WithdrawalInsufficientBalance))
                    } else if amount > q.base {
                        Some(Err(ExchangeError::WithdrawalInsufficientPoolTokens))
                    } else {
                        let v = round_to_zero_to(amount, place_unit(places));
                        if in_range(q.base - amount) && in_range(-v) {
                            match settle_step(PoolState { base: q.base - amount, ..q }, b, -v) {
                                Some((q2, b2)) => Some(Ok((q2, b2, kept, paid.push((res, v))))),
                                None => None,
                            }
                        } else {
                            None
                        }
                    }
                } else if amount > coll_balance(b.collaterals, res) {
                    Some(Err(ExchangeError::WithdrawalInsufficientBalance))
                } else if !has_key(b.collaterals, res) {
                    None
                } else {
                    Some(Ok((q, b, kept.push((res, amount)), paid)))
                }
            },
            Some(Err(e)) => Some(Err(e)),
            None => None,
        }
    }
}

/// Moving collateral out of an account: the claims are added up by resource
/// (in the order in which the resources are first named) and checked and paid
/// out in turn (see [`claims_step`]); the claims on other resources than the
/// base leave the collateral balances; refused when the account's value then
/// does not cover its margin. Hands back the pool, the account and what is paid
/// out (the base tokens first).
pub open spec fn remove_collateral_spec(
    config: VirtualConfig,
    p: PoolState,
    a: AccountState,
    oracle: VirtualOracle,
    claims: Seq<(ResourceAddress, int)>,
    base: ResourceAddress,
    places: u8,
) -> Option<Result<(PoolState, AccountState, Seq<(ResourceAddress, int)>), ExchangeError>> {
    if !(places <= 18 && deposit_fits(Seq::empty(), claims)) {
        None
    } else {
        match claims_step(p, a, deposit_entries(Seq::empty(), claims), base, places) {
            Some(Ok((p1, a1, kept, paid))) => {
                let a2 = AccountState { collaterals: withdraw_entries(a1.collaterals, kept), ..a1 };
                match state_health(config, p1, a2, oracle) {
                    Some((value, margin)) => if value >= margin {
                        Some(Ok((p1, a2, paid + kept)))
                    } else {
                        Some(Err(ExchangeError::InsufficientMargin))
                    },
                    None => None,
                }
            },
            Some(Err(e)) => Some(Err(e)),
            None => None,
        }
    }
}

/// Checks and pays out aggregated claims in turn (see [`claims_step`]).
#[verifier::loop_isolation(false)]
fn pay_claims(
    pool: &mut VirtualLiquidityPool,
    account: &mut VirtualMarginAccount,
    claims: &Vec<(ResourceAddress, Decimal)>,
    base_resource: ResourceAddress,
    places: u8,
) -> (r: Result<(Vec<(ResourceAddress, Decimal)>, Vec<(ResourceAddress, Decimal)>), ExchangeError>)
    requires
        places <= 18,
        keys_distinct(claims@),
        forall|i: int| 0 <= i < claims@.len() ==> #[trigger] claims@[i].1@ >= 0,
        claims_step(old(pool).state(), old(account).state(), coll_views(claims@), base_resource, places) is Some,
    ensures
        match claims_step(old(pool).state(), old(account).state(), coll_views(claims@), base_resource, places).unwrap() {
            Ok((p, a, kept, paid)) => r matches Ok(x) && final(pool).state() == p && final(account).state() == a
                && coll_views(x.0@) == kept && coll_views(x.1@) == paid && keys_distinct(x.0@)
                && (forall|i: int| 0 <= i < x.0@.len() ==> #[trigger] x.0@[i].1@ >= 0),
            Err(e) => r == Err::<(Vec<(ResourceAddress, Decimal)>, Vec<(ResourceAddress, Decimal)>), ExchangeError>(e),
        },
        r is Ok ==> final(account).requests() == old(account).requests() && final(account).address == old(
            account,
        ).address && final(account).active_requests_len == old(account).active_requests_len
            && final(account).collateral_balances == old(account).collateral_balances,
{
    let ghost p0 = pool.state();
    let ghost a0 = account.state();
    let ghost views = coll_views(claims@);
    let mut kept: Vec<(ResourceAddress, Decimal)> = Vec::new();
    let mut paid: Vec<(ResourceAddress, Decimal)> = Vec::new();
    let mut i: usize = 0;
    assert(views.subrange(0, 0) =~= Seq::<(ResourceAddress, int)>::empty());
    assert(coll_views(kept@) =~= Seq::<(ResourceAddress, int)>::empty());
    assert(coll_views(paid@) =~= Seq::<(ResourceAddress, int)>::empty());
    while i < claims.len()
        invariant
            i <= claims@.len(),
            claims_step(p0, a0, views.subrange(0, i as int), base_resource, places) == Some(
                Ok::<_, ExchangeError>((pool.state(), account.state(), coll_views(kept@), coll_views(paid@))),
            ),
            keys_distinct(kept@),
            forall|j: int| 0 <= j < kept@.len() ==> #[trigger] kept@[j].1@ >= 0,
            forall|j: int| 0 <= j < kept@.len() ==> exists|k: int| 0 <= k < i && #[trigger] claims@[k].0 == (#[trigger] kept@[j]).0,
            account.collateral_balances == old(account).collateral_balances,
            account.requests() == old(account).requests(),
            account.address == old(account).address,
            account.active_requests_len == old(account).active_requests_len,
        decreases claims@.len() - i,
    {
        let (resource, amount) = claims[i];
        proof {
            lemma_claims_step_prefix(p0, a0, views, base_resource, places, i as int + 1);
            assert(views.subrange(0, i as int + 1).drop_last() =~= views.subrange(0, i as int));
            assert(views.subrange(0, i as int + 1).last() == (resource, amount@));
        }
        if resource == base_resource {
            if amount.gt(account.virtual_balance) {
                return Err(ExchangeError::WithdrawalInsufficientBalance);
            }
            if amount.gt(pool.base_tokens_amount) {
                return Err(ExchangeError::WithdrawalInsufficientPoolTokens);
            }
            pool.withdraw(amount);
            let value = amount.round_to_zero(places);
            settle_account(pool, account, value.neg());
            let ghost pd = paid@;
            paid.push((resource, value));
            assert(coll_views(paid@) =~= coll_views(pd).push((resource, value@)));
        } else {
            proof {
                use_type_invariant(&account.collateral_balances);
                AssocMap::lemma_inv_distinct(account.collateral_balances);
                lemma_coll_views_key(account.collateral_balances.entries(), resource);
            }
            let balance = account.collateral_amount(&resource);
            if amount.gt(balance) {
                return Err(ExchangeError::WithdrawalInsufficientBalance);
            }
            let ghost kp = kept@;
            kept.push((resource, amount));
            proof {
                assert(coll_views(kept@) =~= coll_views(kp).push((resource, amount@)));
                assert forall|x: int, y: int| 0 <= x < kept@.len() && 0 <= y < kept@.len() && x != y implies #[trigger] kept@[x].0.key_view()
                    != #[trigger] kept@[y].0.key_view() by {
                    if x < kp.len() && y < kp.len() {
                        assert(kp[x] == kept@[x] && kp[y] == kept@[y]);
                    } else if x < kp.len() {
                        assert(kp[x] == kept@[x]);
                        let k = choose|k: int| 0 <= k < i && #[trigger] claims@[k].0 == kp[x].0;
                        assert(claims@[k].0.key_view() != claims@[i as int].0.key_view());
                    } else if y < kp.len() {
                        assert(kp[y] == kept@[y]);
                        let k = choose|k: int| 0 <= k < i && #[trigger] claims@[k].0 == kp[y].0;
                        assert(claims@[k].0.key_view() != claims@[i as int].0.key_view());
                    }
                }
                assert forall|j: int| 0 <= j < kept@.len() implies exists|k: int| 0 <= k < i + 1 && #[trigger] claims@[k].0 == (#[trigger] kept@[j]).0 by {
                    if j < kp.len() {
                        assert(kp[j] == kept@[j]);
                        let k = choose|k: int| 0 <= k < i && #[trigger] claims@[k].0 == kp[j].0;
                        assert(claims@[k].0 == kept@[j].0);
                    } else {
                        assert(claims@[i as int].0 == kept@[j].0);
                    }
                }
            }
        }
        i = i + 1;
    }
    assert(views.subrange(0, claims@.len() as int) =~= views);
    Ok((kept, paid))
}

pub proof fn lemma_claims_step_prefix(
    p: PoolState,
    a: AccountState,
    claims: Seq<(ResourceAddress, int)>,
    base: ResourceAddress,
    places: u8,
    n: int,
)
    requires
        0 <= n <= claims.len(),
        claims_step(p, a, claims, base, places) is Some,
    ensures
        claims_step(p, a, claims.subrange(0, n), base, places) is Some,
        claims_step(p, a, claims.subrange(0, n), base, places) is Some && claims_step(p, a, claims.subrange(0, n), base, places).unwrap() is Err
            ==> claims_step(p, a, claims, base, places) == claims_step(p, a, claims.subrange(0, n), base, places),
    decreases claims.len() - n,
{
    if n < claims.len() {
        lemma_claims_step_prefix(p, a, claims, base, places, n + 1);
        assert(claims.subrange(0, n + 1).drop_last() =~= claims.subrange(0, n));
    } else {
        assert(claims.subrange(0, n) =~= claims);
    }
}

/// Adding up amounts that are not negative gives balances that are not negative.
pub proof fn lemma_deposit_entries_nonneg(entries: Seq<(ResourceAddress, int)>, tokens: Seq<(ResourceAddress, int)>)
    requires
        forall|i: int| 0 <= i < entries.len() ==> #[trigger] entries[i].1 >= 0,
        forall|i: int| 0 <= i < tokens.len() ==> #[trigger] tokens[i].1 >= 0,
    ensures
        forall|i: int| 0 <= i < deposit_entries(entries, tokens).len() ==> #[trigger] deposit_entries(entries, tokens)[i].1 >= 0,
    decreases tokens.len(),
{
    if tokens.len() > 0 {
        let t = tokens.drop_last();
        assert forall|i: int| 0 <= i < t.len() implies #[trigger] t[i].1 >= 0 by {
            assert(t[i] == tokens[i]);
        }
        lemma_deposit_entries_nonneg(entries, t);
        assert(tokens.last().1 >= 0);
        let e = deposit_entries(entries, t);
        let d = deposit_entries(entries, tokens);
        assert forall|i: int| 0 <= i < d.len() implies #[trigger] d[i].1 >= 0 by {
            if has_key(e, tokens.last().0) {
                let k = key_pos(e, tokens.last().0);
                assert(e[k].0.key_view() == tokens.last().0);
                if i != k {
                    assert(d[i] == e[i]);
                }
            } else {
                if i < e.len() {
                    assert(d[i] == e[i]);
                }
            }
        }
    }
}

/// The aggregate of claims that are not negative is not negative.
pub proof fn lemma_aggregate_nonneg(claims: Seq<(ResourceAddress, int)>, i: int)
    requires
        forall|k: int| 0 <= k < claims.len() ==> #[trigger] claims[k].1 >= 0,
        0 <= i < deposit_entries(Seq::empty(), claims).len(),
    ensures
        deposit_entries(Seq::empty(), claims)[i].1 >= 0,
{
    lemma_deposit_entries_nonneg(Seq::empty(), claims);
}

/// The claims that checking keeps are on resources the account holds, for no
/// more than their balances, and checking leaves the balances alone.
pub proof fn lemma_kept_claims(
    p: PoolState,
    a: AccountState,
    claims: Seq<(ResourceAddress, int)>,
    base: ResourceAddress,
    places: u8,
)
    requires
        claims_step(p, a, claims, base, places) matches Some(Ok(_)),
    ensures
        match claims_step(p, a, claims, base, places).unwrap() {
            Ok((_, b, kept, _)) => b.collaterals == a.collaterals && forall|i: int|
                0 <= i < kept.len() ==> has_key(a.collaterals, #[trigger] kept[i].0) && kept[i].1 <= coll_balance(
                    a.collaterals,
                    kept[i].0,
                ),
            Err(_) => true,
        },
    decreases claims.len(),
{
    if claims.len() > 0 {
        let prev = claims_step(p, a, claims.drop_last(), base, places);
        if prev matches Some(Ok(_)) {
            lemma_kept_claims(p, a, claims.drop_last(), base, places);
        }
    }
}

/// Moves collateral out of the account (see [`remove_collateral_spec`]) from a
/// pool whose base resource has `places` decimal places; hands back what is
/// paid out, to be sent to the request's target account. On an error the
/// operation is void and the working copies are to be dropped.
pub fn remove_collateral(
    config: &VirtualConfig,
    pool: &mut VirtualLiquidityPool,
    account: &mut VirtualMarginAccount,
    oracle: &VirtualOracle,
    claims: &Vec<(ResourceAddress, Decimal)>,
    base_resource: ResourceAddress,
    places: u8,
) -> (r: Result<Vec<(ResourceAddress, Decimal)>, ExchangeError>)
    requires
        forall|i: int| 0 <= i < claims@.len() ==> #[trigger] claims@[i].1@ >= 0,
        remove_collateral_spec(*config, old(pool).state(), old(account).state(), *oracle, coll_views(claims@), base_resource, places) is Some,
    ensures
        match remove_collateral_spec(*config, old(pool).state(), old(account).state(), *oracle, coll_views(claims@), base_resource, places).unwrap() {
            Ok((p, a, out)) => r matches Ok(x) && final(pool).state() == p && final(account).state() == a && coll_views(x@) == out,
            Err(e) => r == Err::<Vec<(ResourceAddress, Decimal)>, ExchangeError>(e),
        },
        r is Ok ==> final(account).requests() == old(account).requests() && final(account).address == old(
            account,
        ).address && final(account).active_requests_len == old(account).active_requests_len,
{
    let aggregated = aggregate_claims(claims);
    proof {
        assert forall|i: int| 0 <= i < aggregated@.len() implies #[trigger] aggregated@[i].1@ >= 0 by {
            lemma_aggregate_nonneg(coll_views(claims@), i);
            assert(coll_views(aggregated@)[i] == (aggregated@[i].0, aggregated@[i].1@));
        }
    }
    let ghost p1 = pool.state();
    let ghost a1 = account.state();
    let (kept, mut paid) = pay_claims(pool, account, &aggregated, base_resource, places)?;
    proof {
        use_type_invariant(&account.collateral_balances);
        AssocMap::lemma_inv_distinct(account.collateral_balances);
        lemma_kept_claims(p1, a1, coll_views(aggregated@), base_resource, places);
        assert forall|i: int| 0 <= i < kept@.len() implies account.collateral_balances.view_map().dom().contains(
            #[trigger] kept@[i].0,
        ) && account.collateral_of(kept@[i].0) >= kept@[i].1@ by {
            let ks = coll_views(kept@);
            assert(ks[i] == (kept@[i].0, kept@[i].1@));
            assert(a1.collaterals == coll_views(account.collateral_balances.entries()));
            assert(has_key(a1.collaterals, ks[i].0));
            assert(ks[i].1 <= coll_balance(a1.collaterals, ks[i].0));
            lemma_coll_views_key(account.collateral_balances.entries(), kept@[i].0);
        }
    }
    account.withdraw_collateral_batch(&kept);
    assert_account_integrity(config, pool, account, oracle)?;
    let ghost pd = paid@;
    let mut j: usize = 0;
    while j < kept.len()
        invariant
            j <= kept@.len(),
            paid@ == pd + kept@.subrange(0, j as int),
        decreases kept@.len() - j,
    {
        paid.push(kept[j]);
        j = j + 1;
        assert(paid@ =~= pd + kept@.subrange(0, j as int));
    }
    assert(kept@.subrange(0, kept@.len() as int) =~= kept@);
    assert(coll_views(paid@) =~= coll_views(pd) + coll_views(kept@));
    Ok(paid)
}

/// The discount at which collateral is sold for debt: a tenth of the
/// collateral's own discount plus nine tenths.
pub open spec fn swap_discount(discount: int) -> Option<int> {
    oadd(omul(Some(discount), Some(100_000_000_000_000_000int)), Some(900_000_000_000_000_000int))
}

/// What swapping debt for collateral did.
pub struct SwapOutcome {
    pub pool: PoolState,
    pub account: AccountState,
    /// The collateral taken out of the account.
    pub amount: int,
    /// The price per unit of collateral, discounted.
    pub price: int,
    /// The debt paid off.
    pub value: int,
    /// The base tokens taken from the payment.
    pub taken: int,
}

/// The terms of a swap of debt for collateral in `resource`: the collateral
/// bought, the debt paid off and the discounted price. The debt paid off is
/// the payment, at most the debt; it buys collateral at the oracle's price
/// times the swap discount (see [`swap_discount`]), at most the account's
/// balance of it (the debt paid off then being what that balance is worth).
pub open spec fn swap_terms(config: VirtualConfig, a: AccountState, oracle: VirtualOracle, resource: ResourceAddress, payment: int) -> Option<
    (int, int, int),
> {
    let cc = config.collateral_configs.view_map()[resource];
    let value = if payment <= -a.virtual_balance {
        payment
    } else {
        -a.virtual_balance
    };
    let price = omul(Some(oracle.resource_price_of(resource)@), swap_discount(cc.discount@));
    let available = coll_balance(a.collaterals, resource);
    match (price, odiv(Some(value), price)) {
        (Some(pr), Some(amount)) => if !(oracle.has_resource_price(resource) && in_range(-a.virtual_balance)) {
            None
        } else if amount > available {
            match omul(Some(available), Some(pr)) {
                Some(v) => Some((available, v, pr)),
                None => None,
            }
        } else {
            Some((amount, value, pr))
        },
        _ => None,
    }
}

/// Paying off an account's debt with `payment` tokens of `payment_resource` in
/// exchange for its collateral in `resource`, the base resource having `places`
/// decimal places: refused unless the payment is in the base resource, the
/// resource counts as collateral and the account's virtual balance is
/// negative. On the terms of the swap (see [`swap_terms`]), the payment taken
/// (the debt paid off, rounded up) goes into the pool, the debt paid off is
/// credited to the account and the collateral bought leaves it.
pub open spec fn swap_debt_spec(
    config: VirtualConfig,
    p: PoolState,
    a: AccountState,
    oracle: VirtualOracle,
    resource: ResourceAddress,
    base: ResourceAddress,
    payment_resource: ResourceAddress,
    payment: int,
    places: u8,
) -> Option<Result<SwapOutcome, ExchangeError>> {
    if payment_resource != base {
        Some(Err(ExchangeError::InvalidPaymentToken))
    } else if !is_collateral(config, resource) {
        Some(Err(ExchangeError::InvalidCollateral))
    } else if !(a.virtual_balance < 0) {
        Some(Err(ExchangeError::SwapNoDebt))
    } else {
        match swap_terms(config, a, oracle, resource, payment) {
            Some((amt, val, pr)) => {
                let taken = round_up_to(val, place_unit(places));
                if !(places <= 18 && in_range(taken) && taken <= payment && in_range(p.base + taken) && amt >= 0
                    && has_key(a.collaterals, resource) && in_range(payment - taken)) {
                    None
                } else {
                    match settle_step(PoolState { base: p.base + taken, ..p }, a, val) {
                        Some((p2, a2)) => Some(
                            Ok(
                                SwapOutcome {
                                    pool: p2,
                                    account: AccountState {
                                        collaterals: withdraw_entries(a2.collaterals, seq![(resource, amt)]),
                                        ..a2
                                    },
                                    amount: amt,
                                    price: pr,
                                    value: val,
                                    taken,
                                },
                            ),
                        ),
                        None => None,
                    }
                }
            },
            None => None,
        }
    }
}

/// What a swap of debt for collateral promises when it goes through: the
/// payment was in the base resource, for a resource that counts as collateral,
/// from an account in debt; the debt paid off moves from the pool's virtual
/// balance to the account's, the payment taken (no more than was paid) goes
/// into the pool, and the collateral bought (never a negative amount) leaves
/// the account; nothing else of the account changes.
pub proof fn law_swap_debt(
    config: VirtualConfig,
    p: PoolState,
    a: AccountState,
    oracle: VirtualOracle,
    resource: ResourceAddress,
    base: ResourceAddress,
    payment_resource: ResourceAddress,
    payment: int,
    places: u8,
)
    ensures
        swap_debt_spec(config, p, a, oracle, resource, base, payment_resource, payment, places) matches Some(Ok(o)) ==> {
            &&& payment_resource == base && is_collateral(config, resource) && a.virtual_balance < 0
            &&& o.account.virtual_balance == a.virtual_balance + o.value
            &&& o.pool.virtual_balance == p.virtual_balance - o.value
            &&& o.pool.base == p.base + o.taken
            &&& o.taken <= payment
            &&& o.amount >= 0
            &&& o.account.collaterals == withdraw_entries(a.collaterals, seq![(resource, o.amount)])
            &&& o.account.positions == a.positions && o.account.requests == a.requests
        },
{
}

/// The terms on which debt is swapped for collateral: the collateral is priced
/// at the oracle's price times 0.9 plus a tenth of the collateral's discount;
/// the debt paid off is the payment, at most the debt; and the collateral that
/// leaves the account is the debt paid off divided by that price, or, when the
/// account holds less than that, all it holds (the debt paid off then being
/// what that balance is worth at the price).
pub proof fn law_swap_debt_terms(
    config: VirtualConfig,
    p: PoolState,
    a: AccountState,
    oracle: VirtualOracle,
    resource: ResourceAddress,
    base: ResourceAddress,
    payment_resource: ResourceAddress,
    payment: int,
    places: u8,
)
    ensures
        swap_debt_spec(config, p, a, oracle, resource, base, payment_resource, payment, places) matches Some(Ok(o)) ==> {
            let discount = config.collateral_configs.view_map()[resource].discount@;
            let factor = mul_attos(discount, 100_000_000_000_000_000) + 900_000_000_000_000_000;
            let debt_paid = if payment <= -a.virtual_balance { payment } else { -a.virtual_balance };
            let held = coll_balance(a.collaterals, resource);
            &&& o.price == mul_attos(oracle.resource_price_of(resource)@, factor)
            &&& div_attos(debt_paid, o.price) <= held ==> o.amount == div_attos(debt_paid, o.price) && o.value == debt_paid
            &&& div_attos(debt_paid, o.price) > held ==> o.amount == held && o.value == mul_attos(held, o.price)
            // the payment taken is the debt paid off, rounded up to the base resource's places
            &&& o.value <= o.taken < o.value + place_unit(places)
        },
{
    if let Some(Ok(o)) = swap_debt_spec(config, p, a, oracle, resource, base, payment_resource, payment, places) {
        let u = place_unit(places);
        crate::d_float::lemma_pow10_add((18 - places) as nat, 0);
        assert(u > 0);
        vstd::arithmetic::div_mod::lemma_mod_bound(o.value, u);
        vstd::arithmetic::div_mod::lemma_mod_bound(u - o.value % u, u);
    }
}

/// The terms of a swap of the account's debt for its collateral (see
/// [`swap_terms`]): the collateral bought, the debt paid off and the price.
fn swap_debt_terms(
    config: &VirtualConfig,
    account: &VirtualMarginAccount,
    oracle: &VirtualOracle,
    resource: ResourceAddress,
    payment: Decimal,
) -> (r: (Decimal, Decimal, Decimal))
    requires
        is_collateral(*config, resource),
        swap_terms(*config, account.state(), *oracle, resource, payment@) is Some,
    ensures
        swap_terms(*config, account.state(), *oracle, resource, payment@) == Some((r.0@, r.1@, r.2@)),
{
    let collateral_config = config.collateral_configs.get(&resource).unwrap();
    let discount = collateral_config.discount.mul(Decimal::from_attos(100_000_000_000_000_000)).add(
        Decimal::from_attos(900_000_000_000_000_000),
    );
    let value = payment.min(account.virtual_balance.neg());
    let price_resource = oracle.price_resource(&resource).mul(discount);
    let amount = value.div(price_resource);
    proof {
        use_type_invariant(&account.collateral_balances);
        AssocMap::lemma_inv_distinct(account.collateral_balances);
        lemma_coll_views_key(account.collateral_balances.entries(), resource);
    }
    let available = account.collateral_amount(&resource);
    if amount.gt(available) {
        (available, available.mul(price_resource), price_resource)
    } else {
        (amount, value, price_resource)
    }
}

/// What swapping debt for collateral did, as the exchange reports it.
pub struct SwapDebtResult {
    /// The collateral taken out of the account.
    pub amount: Decimal,
    /// The price per unit of collateral, discounted.
    pub price: Decimal,
    /// The base tokens taken from the payment.
    pub taken: Decimal,
    /// The rest of the payment, handed back.
    pub remainder: Decimal,
}

/// Swaps the account's debt for its collateral in `resource` (see
/// [`swap_debt_spec`]). On an error the operation is void and the working
/// copies are to be dropped.
pub fn swap_debt(
    config: &VirtualConfig,
    pool: &mut VirtualLiquidityPool,
    account: &mut VirtualMarginAccount,
    oracle: &VirtualOracle,
    resource: ResourceAddress,
    base_resource: ResourceAddress,
    payment_resource: ResourceAddress,
    payment: Decimal,
    places: u8,
) -> (r: Result<SwapDebtResult, ExchangeError>)
    requires
        swap_debt_spec(*config, old(pool).state(), old(account).state(), *oracle, resource, base_resource, payment_resource, payment@, places) is Some,
    ensures
        match swap_debt_spec(*config, old(pool).state(), old(account).state(), *oracle, resource, base_resource, payment_resource, payment@, places).unwrap() {
            Ok(o) => r matches Ok(x) && final(pool).state() == o.pool && final(account).state() == o.account
                && x.amount@ == o.amount && x.price@ == o.price && x.taken@ == o.taken && x.remainder@ == payment@ - o.taken,
            Err(e) => r == Err::<SwapDebtResult, ExchangeError>(e),
        },
        r is Ok ==> final(account).requests() == old(account).requests() && final(account).address == old(
            account,
        ).address && final(account).active_requests_len == old(account).active_requests_len,
{
    if payment_resource != base_resource {
        return Err(ExchangeError::InvalidPaymentToken);
    }
    assert_valid_collateral(config, &resource)?;
    if !account.virtual_balance.is_negative() {
        return Err(ExchangeError::SwapNoDebt);
    }
    let (amount, value, price_resource) = swap_debt_terms(config, account, oracle, resource, payment);
    let taken = value.round_up(places).unwrap();
    pool.deposit(taken);
    settle_account(pool, account, value);
    let claims = vec![(resource, amount)];
    proof {
        use_type_invariant(&account.collateral_balances);
        AssocMap::lemma_inv_distinct(account.collateral_balances);
        lemma_coll_views_key(account.collateral_balances.entries(), resource);
        assert(keys_distinct(claims@));
        assert(coll_views(claims@) =~= seq![(resource, amount@)]);
    }
    account.withdraw_collateral_batch(&claims);
    Ok(SwapDebtResult { amount, price: price_resource, taken, remainder: payment.sub(taken) })
}

} // verus!
