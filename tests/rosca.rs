use std::collections::HashMap;

use ahjoor_rosca::{
    Account, AhjoorContract, ContributionEffects, DataKey, Principal, RoscaError, Scheme,
    Transfer,
};

const ADMIN: Principal = 1;
const TOKEN: u64 = 7;
const USER1: Principal = 11;
const USER2: Principal = 12;
const USER3: Principal = 13;

/// Token balances kept by the test in place of the transfer service.
struct Ledger {
    balances: HashMap<Account, i128>,
}

impl Ledger {
    fn new() -> Ledger {
        Ledger { balances: HashMap::new() }
    }

    fn mint(&mut self, p: Principal, amount: i128) {
        *self.balances.entry(Account::Party(p)).or_insert(0) += amount;
    }

    fn balance(&self, a: Account) -> i128 {
        *self.balances.get(&a).unwrap_or(&0)
    }

    fn apply(&mut self, t: &Transfer) {
        assert_eq!(t.asset, TOKEN);
        *self.balances.entry(t.from).or_insert(0) -= t.amount;
        *self.balances.entry(t.to).or_insert(0) += t.amount;
    }

    fn settle(&mut self, fx: &ContributionEffects) {
        self.apply(&fx.deposit);
        if let Some(p) = &fx.payout {
            self.apply(p);
        }
    }
}

fn scheme_of(members: Vec<Principal>, amount: i128, duration: u64, now: u64) -> AhjoorContract {
    let mut c = AhjoorContract::new();
    c.init(ADMIN, members, amount, TOKEN, duration, now).unwrap();
    c
}

fn defaulters(c: &AhjoorContract) -> Vec<Principal> {
    c.scheme.as_ref().unwrap().defaulters.clone()
}

#[test]
fn test_rosca_flow_with_time_locks() {
    let mut ledger = Ledger::new();
    for u in [USER1, USER2, USER3] {
        ledger.mint(u, 1000);
    }
    let duration = 3600u64;
    let amount = 100i128;
    let mut client = scheme_of(vec![USER1, USER2, USER3], amount, duration, 0);

    let fx = client.contribute(USER1, USER1, 100).unwrap();
    ledger.settle(&fx);
    assert_eq!(ledger.balance(Account::Party(USER1)), 900);

    let result = client.contribute(USER2, USER2, 3601);
    assert!(result.is_err(), "Should have rejected late contribution");

    client.close_round(ADMIN, 3601).unwrap();

    let (round, paid, deadline) = client.get_state();
    assert_eq!(round, 1);
    assert_eq!(paid.len(), 0);
    assert_eq!(deadline, 7201);

    let fx = client.contribute(USER1, USER1, 4000).unwrap();
    ledger.settle(&fx);
    assert_eq!(ledger.balance(Account::Party(USER1)), 800);
}

#[test]
#[should_panic(expected = "Cannot close: Deadline has not passed yet")]
fn test_cannot_close_early() {
    let mut client = scheme_of(vec![USER1], 100, 3600, 0);
    client.close_round(ADMIN, 500).expect("Cannot close: Deadline has not passed yet");
}

#[test]
fn test_on_time_contribution() {
    let mut ledger = Ledger::new();
    ledger.mint(USER1, 1000);
    let mut client = scheme_of(vec![USER1, USER2], 100, 3600, 0);

    let fx = client.contribute(USER1, USER1, 1000).unwrap();
    ledger.settle(&fx);
    assert_eq!(ledger.balance(Account::Party(USER1)), 900);

    let (_, paid, _) = client.get_state();
    assert!(paid.contains(&USER1));
}

#[test]
#[should_panic(expected = "Contribution failed: Round deadline has passed")]
fn test_late_contribution_rejection() {
    let mut client = scheme_of(vec![USER1], 100, 3600, 0);
    client.contribute(USER1, USER1, 3601).expect("Contribution failed: Round deadline has passed");
}

#[test]
fn test_admin_close_round() {
    let mut client = scheme_of(vec![USER2], 100, 3600, 0);
    client.close_round(ADMIN, 3601).unwrap();
    let (round, _, _) = client.get_state();
    assert_eq!(round, 1);
}

#[test]
fn init_starts_round_zero_with_nobody_paid() {
    let client = scheme_of(vec![USER1, USER2, USER3], 100, 3600, 50);
    assert_eq!(client.get_state(), (0, vec![], 3650));
    assert!(defaulters(&client).is_empty());
}

#[test]
fn second_init_is_rejected_whatever_the_arguments() {
    let mut client = scheme_of(vec![USER1, USER2], 100, 3600, 0);
    assert_eq!(
        client.init(ADMIN, vec![USER1, USER2], 100, TOKEN, 3600, 0),
        Err(RoscaError::AlreadyInitialized)
    );
    assert_eq!(client.init(99, vec![USER3], 5, 8, 10, 20), Err(RoscaError::AlreadyInitialized));
    assert_eq!(client.get_state(), (0, vec![], 3600));
    assert_eq!(client.scheme.as_ref().unwrap().members, vec![USER1, USER2]);
}

#[test]
fn uninitialized_engine_reports_defaults_and_rejects_rounds() {
    let mut client = AhjoorContract::new();
    assert_eq!(client.get_state(), (0, vec![], 0));
    assert_eq!(client.contribute(USER1, USER1, 0), Err(RoscaError::NotInitialized));
    assert_eq!(client.close_round(ADMIN, 10).unwrap_err(), RoscaError::NotInitialized);
}

#[test]
fn contribution_needs_the_contributor_as_caller() {
    let mut client = scheme_of(vec![USER1, USER2], 100, 3600, 0);
    assert_eq!(client.contribute(USER2, USER1, 10), Err(RoscaError::Unauthorized));
    assert_eq!(client.get_state(), (0, vec![], 3600));
}

#[test]
fn non_member_contribution_moves_nothing() {
    let mut client = scheme_of(vec![USER1, USER2], 100, 3600, 0);
    assert_eq!(client.contribute(USER3, USER3, 10), Err(RoscaError::NotAMember));
    assert_eq!(client.get_state(), (0, vec![], 3600));
}

#[test]
fn second_contribution_in_a_round_is_rejected() {
    let mut ledger = Ledger::new();
    ledger.mint(USER1, 1000);
    let mut client = scheme_of(vec![USER1, USER2, USER3], 100, 3600, 0);
    ledger.settle(&client.contribute(USER1, USER1, 10).unwrap());
    assert_eq!(client.contribute(USER1, USER1, 20), Err(RoscaError::AlreadyContributed));
    assert_eq!(ledger.balance(Account::Party(USER1)), 900);
    assert_eq!(client.get_state(), (0, vec![USER1], 3600));
}

#[test]
fn contribution_after_deadline_is_rejected_even_if_unpaid() {
    let mut client = scheme_of(vec![USER1, USER2], 100, 3600, 0);
    assert!(client.contribute(USER1, USER1, 3600).is_ok());
    assert_eq!(client.contribute(USER2, USER2, 3601), Err(RoscaError::DeadlinePassed));
    assert_eq!(client.get_state(), (0, vec![USER1], 3600));
}

#[test]
fn deposit_goes_from_contributor_into_custody() {
    let mut client = scheme_of(vec![USER1, USER2], 250, 3600, 0);
    let fx = client.contribute(USER2, USER2, 1).unwrap();
    assert_eq!(
        fx,
        ContributionEffects {
            deposit: Transfer {
                asset: TOKEN,
                from: Account::Party(USER2),
                to: Account::Custody,
                amount: 250
            },
            payout: None,
        }
    );
}

#[test]
fn full_round_pays_first_member_the_whole_pot() {
    let mut ledger = Ledger::new();
    for u in [USER1, USER2, USER3] {
        ledger.mint(u, 1000);
    }
    let mut client = scheme_of(vec![USER1, USER2, USER3], 100, 3600, 0);
    ledger.settle(&client.contribute(USER2, USER2, 10).unwrap());
    ledger.settle(&client.contribute(USER3, USER3, 20).unwrap());
    let fx = client.contribute(USER1, USER1, 30).unwrap();
    assert_eq!(
        fx.payout,
        Some(Transfer {
            asset: TOKEN,
            from: Account::Custody,
            to: Account::Party(USER1),
            amount: 300
        })
    );
    ledger.settle(&fx);
    assert_eq!(client.get_state(), (1, vec![], 3630));
    assert_eq!(ledger.balance(Account::Party(USER1)), 1200);
    assert_eq!(ledger.balance(Account::Party(USER2)), 900);
    assert_eq!(ledger.balance(Account::Party(USER3)), 900);
    assert_eq!(ledger.balance(Account::Custody), 0);
}

#[test]
fn payout_rotates_with_the_round_number() {
    let mut client = scheme_of(vec![USER1, USER2], 40, 100, 0);
    let mut recipients = Vec::new();
    let mut now = 0u64;
    for _ in 0..5 {
        now += 1;
        client.contribute(USER1, USER1, now).unwrap();
        now += 1;
        let fx = client.contribute(USER2, USER2, now).unwrap();
        let payout = fx.payout.unwrap();
        assert_eq!(payout.amount, 80);
        recipients.push(payout.to);
    }
    let a = Account::Party(USER1);
    let b = Account::Party(USER2);
    assert_eq!(recipients, vec![a, b, a, b, a]);
    assert_eq!(client.get_state(), (5, vec![], 110));
}

#[test]
fn single_member_round_completes_at_once() {
    let mut client = scheme_of(vec![USER3], 9, 60, 0);
    let fx = client.contribute(USER3, USER3, 5).unwrap();
    assert_eq!(fx.payout.unwrap().amount, 9);
    assert_eq!(fx.payout.unwrap().to, Account::Party(USER3));
    assert_eq!(client.get_state(), (1, vec![], 65));
}

#[test]
fn close_before_or_at_deadline_changes_nothing() {
    let mut client = scheme_of(vec![USER1, USER2], 100, 3600, 0);
    client.contribute(USER1, USER1, 5).unwrap();
    assert_eq!(client.close_round(ADMIN, 3600).unwrap_err(), RoscaError::DeadlineNotYetPassed);
    assert_eq!(client.get_state(), (0, vec![USER1], 3600));
    assert!(defaulters(&client).is_empty());
}

#[test]
fn close_by_non_admin_is_rejected() {
    let mut client = scheme_of(vec![USER1, USER2], 100, 3600, 0);
    assert_eq!(client.close_round(USER1, 4000).unwrap_err(), RoscaError::Unauthorized);
    assert_eq!(client.get_state(), (0, vec![], 3600));
}

#[test]
fn close_records_unpaid_members_and_restarts_from_closing_time() {
    let mut client = scheme_of(vec![USER1, USER2, USER3], 100, 3600, 0);
    client.contribute(USER2, USER2, 5).unwrap();
    let closed = client.close_round(ADMIN, 5000).unwrap();
    assert_eq!(closed.round, 0);
    assert_eq!(closed.defaulters, vec![USER1, USER3]);
    assert_eq!(defaulters(&client), vec![USER1, USER3]);
    assert_eq!(client.get_state(), (1, vec![], 8600));

    let closed = client.close_round(ADMIN, 9000).unwrap();
    assert_eq!(closed.round, 1);
    assert_eq!(defaulters(&client), vec![USER1, USER2, USER3]);
    assert_eq!(client.get_state(), (2, vec![], 12600));
}

#[test]
fn late_payment_then_admin_close_scenario() {
    let mut ledger = Ledger::new();
    for u in [USER1, USER2, USER3] {
        ledger.mint(u, 1000);
    }
    let mut client = scheme_of(vec![USER1, USER2, USER3], 100, 3600, 0);
    ledger.settle(&client.contribute(USER1, USER1, 100).unwrap());
    assert_eq!(ledger.balance(Account::Party(USER1)), 900);
    assert_eq!(client.contribute(USER2, USER2, 3601), Err(RoscaError::DeadlinePassed));
    client.close_round(ADMIN, 3601).unwrap();
    assert_eq!(client.get_state(), (1, vec![], 7201));
    assert_eq!(defaulters(&client), vec![USER2, USER3]);
    assert_eq!(ledger.balance(Account::Custody), 100);
}

#[test]
fn all_pay_in_round_zero_scenario() {
    let mut ledger = Ledger::new();
    let mut client = scheme_of(vec![USER1, USER2, USER3], 100, 3600, 0);
    let mut payouts = Vec::new();
    for (i, u) in [USER1, USER2, USER3].into_iter().enumerate() {
        let fx = client.contribute(u, u, 10 * (i as u64 + 1)).unwrap();
        ledger.settle(&fx);
        payouts.push(fx.payout);
    }
    assert_eq!(payouts[0], None);
    assert_eq!(payouts[1], None);
    assert_eq!(payouts[2].unwrap().to, Account::Party(USER1));
    assert_eq!(payouts[2].unwrap().amount, 300);
    assert_eq!(client.get_state().0, 1);
    assert_eq!(ledger.balance(Account::Party(USER1)), 200);
}

#[test]
fn params_are_checked() {
    assert!(Scheme::params_valid(&vec![USER1, USER2], 100, 3600, 0));
    assert!(!Scheme::params_valid(&vec![], 100, 3600, 0));
    assert!(!Scheme::params_valid(&vec![USER1, USER2, USER1], 100, 3600, 0));
    assert!(!Scheme::params_valid(&vec![USER1], 0, 3600, 0));
    assert!(!Scheme::params_valid(&vec![USER1], -5, 3600, 0));
    assert!(!Scheme::params_valid(&vec![USER1], 100, 0, 0));
    assert!(!Scheme::params_valid(&vec![USER1], 100, u64::MAX, 1));
    assert!(Scheme::params_valid(&vec![USER1], i128::MAX, 1, 0));
    assert!(!Scheme::params_valid(&vec![USER1, USER2], i128::MAX / 2 + 1, 1, 0));
    assert!(Scheme::params_valid(&vec![USER1, USER2], i128::MAX / 2, 1, 0));
}

#[test]
fn only_round_fields_are_mutable() {
    let mutable = [
        DataKey::CurrentRound,
        DataKey::PaidMembers,
        DataKey::RoundDeadline,
        DataKey::Defaulters,
    ];
    let fixed = [
        DataKey::Admin,
        DataKey::Members,
        DataKey::ContributionAmt,
        DataKey::Token,
        DataKey::RoundDuration,
    ];
    assert!(mutable.iter().all(|k| k.is_mutable()));
    assert!(fixed.iter().all(|k| !k.is_mutable()));
}
