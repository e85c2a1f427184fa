use std::collections::HashSet;

use fintoc_lunchmoney::ledger::{
    is_duplicate_message, tally_outcomes, verify_balance_update, Asset, BalanceUpdateError,
    InsertOutcome, InsertTransactionRequest, InsertTransactionResponse, Tag, Transaction,
    TransactionStatus,
};
use fintoc_lunchmoney::money::{Amount, Currency};
use fintoc_lunchmoney::time::Timestamp;

fn response(ids: Option<Vec<u64>>, errors: Option<Vec<&str>>) -> InsertTransactionResponse {
    InsertTransactionResponse {
        ids,
        error: errors.map(|es| es.into_iter().map(|e| e.to_string()).collect()),
    }
}

fn transaction(external_id: &str) -> Transaction {
    Transaction {
        external_id: Some(external_id.to_string()),
        ..Transaction::default()
    }
}

/// A stand-in for the ledger: it refuses a transaction whose external id it holds.
struct MockLedger {
    held: HashSet<String>,
    next_id: u64,
}

impl MockLedger {
    fn insert(&mut self, request: &InsertTransactionRequest) -> InsertTransactionResponse {
        let key = request.transactions[0].external_id.clone().unwrap();
        if self.held.contains(&key) {
            response(None, Some(vec!["Transaction with external_id already exists"]))
        } else {
            self.held.insert(key);
            self.next_id += 1;
            response(Some(vec![self.next_id]), None)
        }
    }
}

fn insert_batch(ledger: &mut MockLedger, keys: &[&str]) -> (Vec<u64>, u64) {
    let outcomes = keys
        .iter()
        .map(|k| ledger.insert(&InsertTransactionRequest::single(transaction(k))).outcome())
        .collect::<Vec<_>>();
    tally_outcomes(&outcomes)
}

#[test]
fn ids_only_gives_the_first_id() {
    assert_eq!(response(Some(vec![9, 10]), None).outcome(), InsertOutcome::Inserted(9));
}

#[test]
fn duplicate_error_wins_over_ids() {
    let r = response(Some(vec![9]), Some(vec!["boom", "Key already exists"]));
    assert_eq!(r.outcome(), InsertOutcome::Existing);
}

#[test]
fn other_errors_keep_the_id() {
    let r = response(Some(vec![9]), Some(vec!["category not found"]));
    assert_eq!(r.outcome(), InsertOutcome::Inserted(9));
}

#[test]
fn errors_only_and_empty_responses_create_nothing() {
    assert_eq!(response(None, Some(vec!["already exists"])).outcome(), InsertOutcome::Existing);
    assert_eq!(response(None, Some(vec!["bad date"])).outcome(), InsertOutcome::Existing);
    assert_eq!(response(None, None).outcome(), InsertOutcome::Existing);
    assert_eq!(response(Some(vec![]), None).outcome(), InsertOutcome::Existing);
}

#[test]
fn duplicate_messages() {
    assert!(is_duplicate_message("Transaction already exists"));
    assert!(!is_duplicate_message("Already Exists"));
    assert!(!is_duplicate_message("already exist"));
    assert!(!is_duplicate_message(""));
}

#[test]
fn tally_counts_each_outcome() {
    let outcomes = vec![
        InsertOutcome::Inserted(4),
        InsertOutcome::Existing,
        InsertOutcome::Failed,
        InsertOutcome::Inserted(8),
        InsertOutcome::Existing,
    ];
    assert_eq!(tally_outcomes(&outcomes), (vec![4, 8], 2));
    assert_eq!(tally_outcomes(&Vec::new()), (vec![], 0));
}

#[test]
fn inserting_the_same_batch_twice() {
    let mut ledger = MockLedger { held: HashSet::new(), next_id: 100 };
    let keys = ["a", "b", "c", "d"];
    let (first_ids, first_existing) = insert_batch(&mut ledger, &keys);
    assert_eq!(first_ids, vec![101, 102, 103, 104]);
    assert_eq!(first_existing, 0);
    let (second_ids, second_existing) = insert_batch(&mut ledger, &keys);
    assert!(second_ids.is_empty());
    assert_eq!(second_existing, keys.len() as u64);
}

#[test]
fn insert_request_flags() {
    let r = InsertTransactionRequest::single(transaction("x"));
    assert_eq!(r.transactions.len(), 1);
    assert_eq!(r.apply_rules, Some(true));
    assert_eq!(r.check_for_recurring, Some(true));
    assert_eq!(r.debit_as_negative, Some(true));
    assert_eq!(r.skip_duplicates, None);
    assert_eq!(r.skip_balance_update, None);
}

#[test]
fn default_transaction_is_blank() {
    let t = Transaction::default();
    assert_eq!(t.date, Timestamp { seconds: 0, nanos: 0 });
    assert_eq!(t.amount, Amount { ten_thousandths: 0 });
    assert_eq!(t.status, TransactionStatus::Uncleared);
    assert!(t.payee.is_none() && t.external_id.is_none() && t.tags.is_none());
}

#[test]
fn default_asset_is_in_dollars() {
    let a = Asset::default();
    assert_eq!(a.currency, "usd");
    assert_eq!(a.balance, Amount::zero());
    assert!(a.id.is_none());
}

#[test]
fn balance_update_record() {
    let a = Asset::balance_update(77, Amount { ten_thousandths: 123 }, Currency::Clp);
    assert_eq!(a.id, Some(77));
    assert_eq!(a.currency, "clp");
    assert_eq!(a.balance, Amount { ten_thousandths: 123 });
    assert!(a.name.is_none());
}

#[test]
fn echoed_currency_mismatch_fails() {
    let sent = Amount { ten_thousandths: 700000000 };
    let mut echoed = Asset::balance_update(77, sent, Currency::Usd);
    assert_eq!(verify_balance_update(sent, Currency::Clp, &echoed),
        Err(BalanceUpdateError::CurrencyMismatch { expected: "clp".to_string(), got: "usd".to_string() }));
    echoed.currency = "CLP".to_string();
    assert!(verify_balance_update(sent, Currency::Clp, &echoed).is_err());
}

#[test]
fn echoed_balance_mismatch_fails() {
    let sent = Amount { ten_thousandths: 700000000 };
    let echoed = Asset::balance_update(77, Amount { ten_thousandths: 1 }, Currency::Clp);
    assert_eq!(
        verify_balance_update(sent, Currency::Clp, &echoed),
        Err(BalanceUpdateError::BalanceMismatch { expected: sent, got: Amount { ten_thousandths: 1 } })
    );
}

#[test]
fn matching_echo_succeeds() {
    let sent = Amount::parse("70000.0000").unwrap();
    let echoed = Asset::balance_update(77, Amount::parse("70000").unwrap(), Currency::Clp);
    assert_eq!(verify_balance_update(sent, Currency::Clp, &echoed), Ok(()));
}

#[test]
fn tags_carry_their_fields() {
    let t = Tag { id: 1, name: "food".to_string(), description: "".to_string() };
    let tx = Transaction { tags: Some(vec![t]), ..Transaction::default() };
    assert_eq!(tx.tags.unwrap()[0].name, "food");
}
