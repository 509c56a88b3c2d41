use surge::account::{KeeperRequest, MarginAccountInfo, VirtualMarginAccount};
use surge::common::{ComponentAddress, ExchangeError};
use surge::decimal::Decimal;
use surge::map::AssocMap;
use surge::requests::{
    Request, RequestRemoveCollateral, STATUS_ACTIVE, STATUS_CANCELLED, STATUS_DORMANT, STATUS_EXECUTED, STATUS_EXPIRED,
};

fn addr() -> ComponentAddress {
    ComponentAddress { high: 9, low: 9 }
}

fn keeper_request(status: u8) -> KeeperRequest {
    KeeperRequest {
        request: Request::RemoveCollateral(RequestRemoveCollateral { target_account: addr(), claims: vec![] }),
        submission: 100,
        expiry: 200,
        status,
        effected_components: vec![],
    }
}

/// An account with requests 0..n of the given statuses, all fetched, the
/// first `valid_start` no longer valid.
fn account(statuses: &[u8], valid_start: u64) -> VirtualMarginAccount {
    let mut cache = AssocMap::new();
    let mut active = 0usize;
    for (i, s) in statuses.iter().enumerate() {
        cache.insert(i as u64, keeper_request(*s));
        if *s == STATUS_ACTIVE || *s == STATUS_DORMANT {
            active += 1;
        }
    }
    let info = MarginAccountInfo {
        positions: AssocMap::new(),
        collateral_balances: AssocMap::new(),
        virtual_balance: Decimal::zero(),
        requests_len: statuses.len() as u64,
        active_requests_len: active,
        valid_requests_start: valid_start,
    };
    VirtualMarginAccount::new(addr(), info, None, cache)
}

#[test]
fn processing_an_active_request_executes_it() {
    let mut a = account(&[STATUS_ACTIVE, STATUS_DORMANT], 0);
    let (request, expired) = a.process_request(0, 150).ok().unwrap();
    assert!(!expired);
    assert!(matches!(request, Request::RemoveCollateral(_)));
    assert_eq!(a.keeper_request(0).status, STATUS_EXECUTED);
    assert_eq!(a.active_requests_len(), 1);
    let updates = a.realize();
    assert_eq!(updates.active_request_removals, vec![0]);
    assert_eq!(updates.request_updates.len(), 1);
    assert_eq!(updates.request_updates[0].0, 0);
    assert_eq!(updates.request_updates[0].1.status, STATUS_EXECUTED);
}

#[test]
fn processing_after_expiry_expires_a_dormant_request() {
    let mut a = account(&[STATUS_DORMANT], 0);
    let (_, expired) = a.process_request(0, 200).ok().unwrap();
    assert!(expired);
    assert_eq!(a.keeper_request(0).status, STATUS_EXPIRED);
}

#[test]
fn processing_refusals() {
    let mut a = account(&[STATUS_DORMANT, STATUS_ACTIVE, STATUS_ACTIVE], 1);
    assert_eq!(a.process_request(0, 150).err(), Some(ExchangeError::ProcessRequestBeforeValidStart));
    let mut a = account(&[STATUS_DORMANT, STATUS_ACTIVE], 0);
    assert_eq!(a.process_request(0, 150).err(), Some(ExchangeError::ProcessRequestNotActive));
    assert_eq!(a.process_request(1, 100).err(), Some(ExchangeError::ProcessRequestBeforeSubmission));
    let mut a = account(&[STATUS_EXECUTED, STATUS_ACTIVE], 0);
    assert_eq!(a.process_request(0, 300).err(), Some(ExchangeError::ProcessRequestNotActive));
}

#[test]
fn cancelling_live_requests() {
    let mut a = account(&[STATUS_ACTIVE, STATUS_DORMANT, STATUS_EXECUTED], 0);
    assert_eq!(a.cancel_requests(&vec![0, 1]), Ok(()));
    assert_eq!(a.keeper_request(0).status, STATUS_CANCELLED);
    assert_eq!(a.keeper_request(1).status, STATUS_CANCELLED);
    assert_eq!(a.active_requests_len(), 0);
    let mut a = account(&[STATUS_ACTIVE, STATUS_DORMANT, STATUS_EXECUTED], 0);
    assert_eq!(a.cancel_requests(&vec![0, 2]), Err(ExchangeError::CancelRequestNotActiveOrDormant));
    assert_eq!(a.cancel_request(2), Err(ExchangeError::CancelRequestNotActiveOrDormant));
    assert_eq!(a.cancel_request(1), Ok(()));
    assert_eq!(a.keeper_request(1).status, STATUS_CANCELLED);
    assert_eq!(a.active_requests_len(), 1);
}

#[test]
fn activating_only_moves_dormant_requests() {
    let mut a = account(&[STATUS_DORMANT, STATUS_EXECUTED, STATUS_DORMANT], 0);
    let moved = a.try_set_keeper_requests_status(&vec![0, 1, 2, 0], STATUS_ACTIVE);
    assert_eq!(moved, vec![0, 2]);
    assert_eq!(a.keeper_request(0).status, STATUS_ACTIVE);
    assert_eq!(a.keeper_request(1).status, STATUS_EXECUTED);
    let known = a.keeper_requests(&vec![1, 2]);
    assert_eq!(known.len(), 2);
    assert_eq!(known.get(&2).unwrap().status, STATUS_ACTIVE);
}

#[test]
fn pushing_requests() {
    let mut a = account(&[STATUS_ACTIVE], 0);
    let r = Request::RemoveCollateral(RequestRemoveCollateral { target_account: addr(), claims: vec![] });
    assert_eq!(a.push_request(r.copy(), 5, 60, STATUS_EXECUTED, vec![], 1000), Err(ExchangeError::InvalidRequestStatus));
    assert_eq!(a.push_request(r, 5, 60, STATUS_DORMANT, vec![addr()], 1000), Ok(()));
    assert_eq!(a.active_requests_len(), 2);
    let updates = a.realize();
    assert_eq!(updates.request_additions.len(), 1);
    assert_eq!(updates.request_additions[0].submission, 1005);
    assert_eq!(updates.request_additions[0].expiry, 1065);
    assert_eq!(updates.request_additions[0].status, STATUS_DORMANT);
    assert_eq!(updates.active_request_additions, vec![1]);
}

#[test]
fn invalidating_earlier_requests() {
    let mut a = account(&[STATUS_ACTIVE, STATUS_ACTIVE], 0);
    a.update_valid_requests_start();
    assert_eq!(a.valid_requests_start(), 2);
    assert_eq!(a.process_request(1, 150).err(), Some(ExchangeError::ProcessRequestBeforeValidStart));
}

#[test]
fn a_request_is_processed_once() {
    let mut a = account(&[STATUS_ACTIVE, STATUS_ACTIVE], 0);
    assert!(a.process_request(0, 150).is_ok());
    assert_eq!(a.process_request(0, 160).err(), Some(ExchangeError::ProcessRequestNotActive));
    assert_eq!(a.process_request(0, 500).err(), Some(ExchangeError::ProcessRequestNotActive));
}
