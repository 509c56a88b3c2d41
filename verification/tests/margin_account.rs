use surge::account::{AccountPosition, KeeperRequest, MarginAccountUpdates, VirtualMarginAccount};
use surge::map::AssocMap;
use surge::common::{ComponentAddress, ResourceAddress};
use surge::decimal::Decimal;
use surge::margin_account::MarginAccount;
use surge::requests::{Request, RequestRemoveCollateral, STATUS_ACTIVE, STATUS_CANCELLED, STATUS_DORMANT};

const UNIT: i128 = 1_000_000_000_000_000_000;

fn d(x: i128) -> Decimal {
    Decimal::from_attos(x)
}

fn res(n: u128) -> ResourceAddress {
    ResourceAddress { high: 4, low: n }
}

fn kr(submission: i64, status: u8) -> KeeperRequest {
    KeeperRequest {
        request: Request::RemoveCollateral(RequestRemoveCollateral {
            target_account: ComponentAddress { high: 0, low: 1 },
            claims: vec![(res(1), d(UNIT))],
        }),
        submission,
        expiry: submission + 100,
        status,
        effected_components: vec![],
    }
}

fn position(amount: i128) -> AccountPosition {
    AccountPosition { amount: d(amount * UNIT), cost: d(amount * 10 * UNIT), funding_index: d(0) }
}

fn updates() -> MarginAccountUpdates {
    MarginAccountUpdates {
        position_updates: vec![],
        virtual_balance: d(0),
        valid_requests_start: 0,
        request_additions: vec![],
        request_updates: vec![],
        active_request_additions: vec![],
        active_request_removals: vec![],
    }
}

#[test]
fn update_applies_positions_requests_and_balance() {
    let mut account = MarginAccount::new(Some("#1#".to_string()));
    let mut u = updates();
    u.position_updates = vec![("BTC/USD".to_string(), position(2)), ("ETH/USD".to_string(), position(1))];
    u.virtual_balance = d(-3 * UNIT);
    u.request_additions = vec![kr(10, STATUS_ACTIVE), kr(20, STATUS_DORMANT), kr(30, STATUS_ACTIVE)];
    u.active_request_additions = vec![0, 1, 2];
    account.update(u);
    assert_eq!(account.get_requests_len(), 3);
    assert_eq!(account.positions.len(), 2);
    assert!(account.virtual_balance.eq(d(-3 * UNIT)));

    let mut u = updates();
    u.position_updates = vec![("BTC/USD".to_string(), position(0))];
    u.virtual_balance = d(UNIT);
    u.valid_requests_start = 1;
    u.request_updates = vec![(2, kr(30, STATUS_CANCELLED))];
    u.active_request_removals = vec![2];
    account.update(u);
    assert_eq!(account.positions.len(), 1);
    assert!(account.positions.get(&"BTC/USD".to_string()).is_none());
    assert_eq!(account.valid_requests_start, 1);
    assert_eq!(account.get_request(2).unwrap().status, STATUS_CANCELLED);
    let active = account.get_active_requests();
    assert_eq!(active.len(), 1);
    assert!(active.get(&1).is_some());
    let info = account.get_info();
    assert_eq!(info.requests_len, 3);
    assert_eq!(info.active_requests_len, 1);
    assert_eq!(info.valid_requests_start, 1);
}

#[test]
fn requests_read_by_range_and_from_the_end() {
    let mut account = MarginAccount::new(None);
    let mut u = updates();
    u.request_additions = vec![kr(10, STATUS_ACTIVE), kr(20, STATUS_ACTIVE), kr(30, STATUS_ACTIVE), kr(40, STATUS_ACTIVE)];
    account.update(u);
    let page = account.get_requests(2, Some(1));
    assert_eq!(page.len(), 2);
    assert_eq!(page[0].0, 1);
    assert_eq!(page[1].1.submission, 30);
    assert_eq!(account.get_requests(10, Some(3)).len(), 1);
    let tail = account.get_requests_tail(3, None);
    assert_eq!(tail.iter().map(|(i, _)| *i).collect::<Vec<u64>>(), vec![3, 2, 1]);
    let tail = account.get_requests_tail(5, Some(1));
    assert_eq!(tail.iter().map(|(i, _)| *i).collect::<Vec<u64>>(), vec![1, 0]);
    let by_index = account.get_requests_by_indexes(&vec![0, 7]);
    assert!(by_index.get(&0).unwrap().is_some());
    assert!(by_index.get(&7).unwrap().is_none());
    assert!(account.get_request(4).is_none());
}

#[test]
fn collateral_batches_add_and_take() {
    let mut account = MarginAccount::new(None);
    account.deposit_collateral_batch(&vec![(res(1), d(5 * UNIT)), (res(2), d(UNIT)), (res(1), d(2 * UNIT))]);
    assert!(account.collateral_balances.get(&res(1)).unwrap().eq(d(7 * UNIT)));
    account.withdraw_collateral_batch(&vec![(res(1), d(3 * UNIT))]);
    assert!(account.collateral_balances.get(&res(1)).unwrap().eq(d(4 * UNIT)));
    assert!(account.collateral_balances.get(&res(2)).unwrap().eq(d(UNIT)));
}

#[test]
fn referral_id_is_kept_and_replaced() {
    let mut account = MarginAccount::new(None);
    assert!(account.referral_id.is_none());
    account.update_referral_id(Some("#7#".to_string()));
    assert_eq!(account.referral_id, Some("#7#".to_string()));
}

#[test]
fn an_account_written_back_reads_back_as_the_operation_left_it() {
    let mut stored = MarginAccount::new(None);
    let mut u = updates();
    u.position_updates = vec![("BTC/USD".to_string(), position(2)), ("ETH/USD".to_string(), position(1))];
    u.virtual_balance = d(5 * UNIT);
    stored.update(u);

    let address = ComponentAddress { high: 3, low: 3 };
    let mut v = VirtualMarginAccount::new(address, stored.get_info(), None, AssocMap::new());
    v.set_position(&"BTC/USD".to_string(), position(3));
    v.set_position(&"ETH/USD".to_string(), position(0));
    v.add_virtual_balance(d(-2 * UNIT));
    stored.update(v.realize());

    let again = VirtualMarginAccount::new(address, stored.get_info(), None, AssocMap::new());
    assert!(again.virtual_balance.eq(d(3 * UNIT)));
    assert_eq!(again.positions.len(), 1);
    let btc = again.position(&"BTC/USD".to_string());
    assert!(btc.amount.eq(d(3 * UNIT)) && btc.cost.eq(d(30 * UNIT)));
    // the emptied position is gone
    assert!(again.position(&"ETH/USD".to_string()).amount.is_zero());
    assert!(!again.positions.contains_key(&"ETH/USD".to_string()));
}

#[test]
fn a_status_changed_in_a_working_copy_reaches_the_ledger() {
    let mut stored = MarginAccount::new(None);
    let mut u = updates();
    u.request_additions = vec![kr(10, STATUS_ACTIVE)];
    u.active_request_additions = vec![0];
    stored.update(u);

    let mut cache = AssocMap::new();
    cache.insert(0u64, stored.get_request(0).unwrap());
    let mut v = VirtualMarginAccount::new(ComponentAddress { high: 3, low: 3 }, stored.get_info(), None, cache);
    assert!(v.cancel_request(0).is_ok());
    let written = v.realize();
    assert_eq!(written.request_updates.len(), 1);
    assert_eq!(written.request_updates[0].0, 0);
    stored.update(written);
    assert_eq!(stored.get_request(0).unwrap().status, STATUS_CANCELLED);
}
