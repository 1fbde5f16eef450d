//! Query aggregation scenarios: OR semantics over the active providers,
//! in registration order, first affirmative wins.

use std::cell::RefCell;

use provider_registry::engine::aggregate;
use provider_registry::engine::is_allowed;
use provider_registry::engine::is_approved;
use provider_registry::AccountId;
use provider_registry::AllowanceQuery;
use provider_registry::ApprovalQuery;
use provider_registry::HashAddr;
use provider_registry::ProviderClient;
use provider_registry::ProviderId;
use provider_registry::Registry;
use provider_registry::RegistryError;

fn pid(n: u64) -> ProviderId {
    ProviderId { hash: HashAddr { w0: n, w1: 0, w2: 0, w3: 0 } }
}

fn account(n: u64) -> AccountId {
    AccountId { hash: HashAddr { w0: n, w1: 0, w2: 0, w3: 0 } }
}

/// A stand-in for the deployed providers: each listed `(provider,
/// account)` pair is approved; providers in `failing` abort the decision
/// call; every consulted provider is recorded in `log` in call order.
struct TableClient {
    approvals: Vec<(ProviderId, AccountId)>,
    failing: Vec<ProviderId>,
    log: RefCell<Vec<ProviderId>>,
}

impl TableClient {
    fn new(approvals: Vec<(ProviderId, AccountId)>) -> TableClient {
        TableClient { approvals, failing: Vec::new(), log: RefCell::new(Vec::new()) }
    }

    fn verdict(&self, provider: &ProviderId, account: &AccountId) -> Option<bool> {
        if self.failing.contains(provider) {
            return None;
        }
        Some(self.approvals.iter().any(|(p, a)| p == provider && a == account))
    }

    fn calls(&self) -> Vec<ProviderId> {
        self.log.borrow().clone()
    }
}

fn to_result(verdict: Option<bool>) -> Result<bool, RegistryError> {
    match verdict {
        Some(v) => Ok(v),
        None => Err(RegistryError::ProviderInvocationFailure),
    }
}

impl ProviderClient<ApprovalQuery> for TableClient {
    fn decision(&self, provider: ProviderId, query: ApprovalQuery) -> Option<bool> {
        self.verdict(&provider, &query.account)
    }

    fn decide(&self, provider: &ProviderId, query: &ApprovalQuery) -> Result<bool, RegistryError> {
        self.log.borrow_mut().push(*provider);
        to_result(self.verdict(provider, &query.account))
    }
}

impl ProviderClient<AllowanceQuery> for TableClient {
    fn decision(&self, provider: ProviderId, query: AllowanceQuery) -> Option<bool> {
        match self.verdict(&provider, &query.account) {
            Some(approved) => Some(approved && query.amount <= 1000),
            None => None,
        }
    }

    fn decide(&self, provider: &ProviderId, query: &AllowanceQuery) -> Result<bool, RegistryError> {
        self.log.borrow_mut().push(*provider);
        to_result(ProviderClient::<AllowanceQuery>::decision(self, *provider, *query))
    }
}

#[test]
fn test_deploy() {
    let reg = Registry::init(None);
    assert_eq!(reg.len(), 0);
}

#[test]
fn test_no_provider() {
    let reg = Registry::init(None);
    let client = TableClient::new(vec![]);
    assert_eq!(is_approved(&reg, &client, account(7), None), Ok(false));
}

#[test]
#[should_panic]
fn test_no_provider_failing() {
    let reg = Registry::init(None);
    let client = TableClient::new(vec![]);
    assert_eq!(is_approved(&reg, &client, account(7), None), Ok(true));
}

#[test]
fn test_single_provider_proxy_negative() {
    let mut reg = Registry::init(None);
    reg.add(pid(1));
    let client = TableClient::new(vec![]);
    assert_eq!(is_approved(&reg, &client, account(7), None), Ok(false));
    assert_eq!(client.calls(), vec![pid(1)]);
}

#[test]
fn test_single_provider_proxy_positive() {
    let mut reg = Registry::init(None);
    reg.add(pid(1));
    let client = TableClient::new(vec![(pid(1), account(7))]);
    assert_eq!(is_approved(&reg, &client, account(7), None), Ok(true));
}

#[test]
fn test_multiple_provider_proxy_negative() {
    let mut reg = Registry::init(None);
    reg.add(pid(1));
    reg.add(pid(2));
    let client = TableClient::new(vec![]);
    assert_eq!(is_approved(&reg, &client, account(7), None), Ok(false));
    assert_eq!(client.calls(), vec![pid(1), pid(2)]);
}

#[test]
fn test_multiple_provider_proxy_first_positive() {
    let mut reg = Registry::init(None);
    reg.add(pid(1));
    reg.add(pid(2));
    let client = TableClient::new(vec![(pid(1), account(7))]);
    assert_eq!(is_approved(&reg, &client, account(7), None), Ok(true));
    assert_eq!(client.calls(), vec![pid(1)]);
}

#[test]
fn test_multiple_provider_proxy_second_positive() {
    let mut reg = Registry::init(None);
    reg.add(pid(1));
    reg.add(pid(2));
    let client = TableClient::new(vec![(pid(2), account(7))]);
    assert_eq!(is_approved(&reg, &client, account(7), None), Ok(true));
    // the denying first provider was consulted before the affirming second
    assert_eq!(client.calls(), vec![pid(1), pid(2)]);
}

#[test]
fn test_banned_provider() {
    let mut reg = Registry::init(None);
    reg.add(pid(1));
    let client = TableClient::new(vec![(pid(1), account(7))]);
    assert_eq!(is_approved(&reg, &client, account(7), None), Ok(true));
    reg.ban(&pid(1));
    assert_eq!(is_approved(&reg, &client, account(7), None), Ok(false));
}

#[test]
fn test_unbanned_provider() {
    let mut reg = Registry::init(None);
    reg.add(pid(1));
    let client = TableClient::new(vec![(pid(1), account(7))]);
    assert_eq!(is_approved(&reg, &client, account(7), None), Ok(true));
    reg.ban(&pid(1));
    assert_eq!(is_approved(&reg, &client, account(7), None), Ok(false));
    reg.unban(&pid(1));
    assert_eq!(is_approved(&reg, &client, account(7), None), Ok(true));
}

#[test]
fn test_short_circuit_skips_later_providers() {
    let mut reg = Registry::init(None);
    reg.add(pid(1));
    reg.add(pid(2));
    reg.add(pid(3));
    // the first provider denies, the second and third would both affirm
    let client = TableClient::new(vec![(pid(2), account(7)), (pid(3), account(7))]);
    assert_eq!(is_approved(&reg, &client, account(7), None), Ok(true));
    // the third provider is never consulted
    assert_eq!(client.calls(), vec![pid(1), pid(2)]);
}

#[test]
fn test_banned_provider_not_consulted() {
    let mut reg = Registry::init(None);
    reg.add(pid(1));
    reg.add(pid(2));
    let client = TableClient::new(vec![(pid(1), account(7))]);
    reg.ban(&pid(1));
    assert_eq!(is_approved(&reg, &client, account(7), None), Ok(false));
    // only the active provider was consulted
    assert_eq!(client.calls(), vec![pid(2)]);
}

#[test]
fn test_provider_failure_aborts_query() {
    let mut reg = Registry::init(None);
    reg.add(pid(1));
    reg.add(pid(2));
    let mut client = TableClient::new(vec![(pid(2), account(7))]);
    client.failing.push(pid(1));
    assert_eq!(
        is_approved(&reg, &client, account(7), None),
        Err(RegistryError::ProviderInvocationFailure)
    );
}

#[test]
fn test_failure_after_affirmative_is_unreachable() {
    let mut reg = Registry::init(None);
    reg.add(pid(1));
    reg.add(pid(2));
    // the first provider affirms, the second would abort — but the query
    // short-circuits before reaching it
    let mut client = TableClient::new(vec![(pid(1), account(7))]);
    client.failing.push(pid(2));
    assert_eq!(is_approved(&reg, &client, account(7), None), Ok(true));
    assert_eq!(client.calls(), vec![pid(1)]);
}

#[test]
fn test_allowance_amount_gate() {
    let mut reg = Registry::init(None);
    reg.add(pid(1));
    let client = TableClient::new(vec![(pid(1), account(7))]);
    assert_eq!(is_allowed(&reg, &client, account(7), None, 1000), Ok(true));
    assert_eq!(is_allowed(&reg, &client, account(7), None, 1001), Ok(false));
    assert_eq!(is_allowed(&reg, &client, account(9), None, 5), Ok(false));
}

#[test]
fn test_aggregate_generic_query() {
    let mut reg = Registry::init(None);
    reg.add(pid(1));
    let client = TableClient::new(vec![(pid(1), account(7))]);
    let query = ApprovalQuery { account: account(7), index: Some(3) };
    assert_eq!(aggregate(&reg, &client, &query), Ok(true));
}
