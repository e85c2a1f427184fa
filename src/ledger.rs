//! Records of the personal-finance ledger, and the decisions taken on its responses.

use crate::money::{Amount, Currency};
use crate::text::{contains, occurs_in};
use crate::time::Timestamp;
use vstd::prelude::*;

verus! {

/// Text by which the ledger reports that a transaction with the same external id exists.
pub const DUPLICATE_MARKER: &'static str = "already exists";

pub open spec fn opt_view(o: Option<String>) -> Option<Seq<char>> {
    match o {
        Some(s) => Some(s@),
        None => None,
    }
}

/// A ledger tag.
#[derive(Debug)]
pub struct Tag {
    pub id: u64,
    pub name: String,
    pub description: String,
}

impl View for Tag {
    type V = (u64, Seq<char>, Seq<char>);

    open spec fn view(&self) -> (u64, Seq<char>, Seq<char>) {
        (self.id, self.name@, self.description@)
    }
}

#[derive(Debug, Clone, Copy, PartialEq, Eq, Structural)]
pub enum TransactionStatus {
    Cleared,
    Uncleared,
}

/// A ledger transaction.
#[derive(Debug)]
pub struct Transaction {
    pub id: Option<u64>,
    pub date: Timestamp,
    /// Display name of the payee.
    pub payee: Option<String>,
    pub amount: Amount,
    /// Lower-case ISO 4217 code.
    pub currency: Option<String>,
    pub category_id: Option<u64>,
    pub asset_id: Option<u64>,
    pub status: TransactionStatus,
    pub parent_id: Option<u64>,
    pub is_group: Option<bool>,
    pub group_id: Option<u64>,
    pub tags: Option<Vec<Tag>>,
    /// Key by which the ledger recognises a transaction it already holds.
    pub external_id: Option<String>,
    pub notes: Option<String>,
    pub original_name: Option<String>,
    pub is_pending: Option<bool>,
}

/// The content of a [`Transaction`], with text as character sequences.
pub struct TransactionView {
    pub id: Option<u64>,
    pub date: Timestamp,
    pub payee: Option<Seq<char>>,
    pub amount: Amount,
    pub currency: Option<Seq<char>>,
    pub category_id: Option<u64>,
    pub asset_id: Option<u64>,
    pub status: TransactionStatus,
    pub parent_id: Option<u64>,
    pub is_group: Option<bool>,
    pub group_id: Option<u64>,
    pub tags: Option<Seq<(u64, Seq<char>, Seq<char>)>>,
    pub external_id: Option<Seq<char>>,
    pub notes: Option<Seq<char>>,
    pub original_name: Option<Seq<char>>,
    pub is_pending: Option<bool>,
}

impl View for Transaction {
    type V = TransactionView;

    open spec fn view(&self) -> TransactionView {
        TransactionView {
            id: self.id,
            date: self.date,
            payee: opt_view(self.payee),
            amount: self.amount,
            currency: opt_view(self.currency),
            category_id: self.category_id,
            asset_id: self.asset_id,
            status: self.status,
            parent_id: self.parent_id,
            is_group: self.is_group,
            group_id: self.group_id,
            tags: match self.tags {
                Some(v) => Some(v@.map_values(|t: Tag| t@)),
                None => None,
            },
            external_id: opt_view(self.external_id),
            notes: opt_view(self.notes),
            original_name: opt_view(self.original_name),
            is_pending: self.is_pending,
        }
    }
}

/// A transaction dated at the Unix epoch, with a zero amount, uncleared, and nothing else set.
pub open spec fn blank_transaction() -> TransactionView {
    TransactionView {
        id: None,
        date: Timestamp { seconds: 0, nanos: 0 },
        payee: None,
        amount: Amount { ten_thousandths: 0 },
        currency: None,
        category_id: None,
        asset_id: None,
        status: TransactionStatus::Uncleared,
        parent_id: None,
        is_group: None,
        group_id: None,
        tags: None,
        external_id: None,
        notes: None,
        original_name: None,
        is_pending: None,
    }
}

impl Default for Transaction {
    fn default() -> (r: Transaction)
        ensures
            r@ == blank_transaction(),
    {
        Transaction {
            id: None,
            date: Timestamp::unix_epoch(),
            payee: None,
            amount: Amount::zero(),
            currency: None,
            category_id: None,
            asset_id: None,
            status: TransactionStatus::Uncleared,
            parent_id: None,
            is_group: None,
            group_id: None,
            tags: None,
            external_id: None,
            notes: None,
            original_name: None,
            is_pending: None,
        }
    }
}

/// A ledger asset: an account whose balance the ledger tracks.
#[derive(Debug)]
pub struct Asset {
    pub id: Option<u64>,
    pub type_: Option<String>,
    pub subtype: Option<String>,
    pub name: Option<String>,
    pub display_name: Option<String>,
    pub balance: Amount,
    pub balance_as_of: Option<Timestamp>,
    pub closed_on: Option<String>,
    /// Lower-case ISO 4217 code.
    pub currency: String,
    pub institution_name: Option<String>,
    pub exclude_transactions: Option<bool>,
    pub created_at: Option<Timestamp>,
}

impl Default for Asset {
    fn default() -> (r: Asset)
        ensures
            r.id is None,
            r.type_ is None,
            r.subtype is None,
            r.name is None,
            r.display_name is None,
            r.balance == Amount::zero_spec(),
            r.balance_as_of is None,
            r.closed_on is None,
            r.currency@ == Currency::Usd.lower_code(),
            r.institution_name is None,
            r.exclude_transactions is None,
            r.created_at is None,
    {
        Asset {
            id: None,
            type_: None,
            subtype: None,
            name: None,
            display_name: None,
            balance: Amount::zero(),
            balance_as_of: None,
            closed_on: None,
            currency: Currency::Usd.lowercase_code(),
            institution_name: None,
            exclude_transactions: None,
            created_at: None,
        }
    }
}

impl Asset {
    /// The asset record sent to set the balance of asset `asset_id`.
    pub fn balance_update(asset_id: u64, balance: Amount, currency: Currency) -> (r: Asset)
        ensures
            r.id == Some(asset_id),
            r.balance == balance,
            r.currency@ == currency.lower_code(),
            r.type_ is None,
            r.subtype is None,
            r.name is None,
            r.display_name is None,
            r.balance_as_of is None,
            r.closed_on is None,
            r.institution_name is None,
            r.exclude_transactions is None,
            r.created_at is None,
    {
        Asset {
            id: Some(asset_id),
            balance,
            currency: currency.lowercase_code(),
            ..Asset::default()
        }
    }
}

/// Why the ledger's answer to a balance update was not accepted.
#[derive(Debug, Clone, PartialEq, Eq)]
pub enum BalanceUpdateError {
    /// The asset came back with another balance than the one sent.
    BalanceMismatch { expected: Amount, got: Amount },
    /// The asset came back with another currency than the one sent.
    CurrencyMismatch { expected: String, got: String },
}

/// Checks the asset that the ledger echoed after a balance update against what was sent.
pub fn verify_balance_update(expected: Amount, currency: Currency, echoed: &Asset) -> (r: Result<
    (),
    BalanceUpdateError,
>)
    ensures
        r is Ok <==> (echoed.balance == expected && echoed.currency@ == currency.lower_code()),
        echoed.balance != expected ==> (r matches Err(
            BalanceUpdateError::BalanceMismatch { expected: e, got: g },
        ) && e == expected && g == echoed.balance),
        echoed.balance == expected && echoed.currency@ != currency.lower_code() ==> (r matches Err(
            BalanceUpdateError::CurrencyMismatch { expected: e, got: g },
        ) && e@ == currency.lower_code() && g@ == echoed.currency@),
{
    if echoed.balance != expected {
        return Err(BalanceUpdateError::BalanceMismatch { expected, got: echoed.balance });
    }
    let want = currency.lowercase_code();
    if echoed.currency != want {
        return Err(
            BalanceUpdateError::CurrencyMismatch { expected: want, got: echoed.currency.clone() },
        );
    }
    Ok(())
}

/// The ledger's list of assets.
#[derive(Debug)]
pub struct GetAllAssetsResponse {
    pub assets: Vec<Asset>,
}

/// A request to insert transactions into the ledger.
#[derive(Debug)]
pub struct InsertTransactionRequest {
    pub transactions: Vec<Transaction>,
    pub apply_rules: Option<bool>,
    pub skip_duplicates: Option<bool>,
    pub check_for_recurring: Option<bool>,
    pub debit_as_negative: Option<bool>,
    pub skip_balance_update: Option<bool>,
}

impl InsertTransactionRequest {
    /// The request that inserts one transaction: rules applied, recurring expenses
    /// detected, debits taken as negative.
    pub fn single(transaction: Transaction) -> (r: InsertTransactionRequest)
        ensures
            r.transactions@ == seq![transaction],
            r.apply_rules == Some(true),
            r.check_for_recurring == Some(true),
            r.debit_as_negative == Some(true),
            r.skip_duplicates is None,
            r.skip_balance_update is None,
    {
        let mut transactions = Vec::new();
        transactions.push(transaction);
        assert(transactions@ =~= seq![transaction]);
        InsertTransactionRequest {
            transactions,
            apply_rules: Some(true),
            skip_duplicates: None,
            check_for_recurring: Some(true),
            debit_as_negative: Some(true),
            skip_balance_update: None,
        }
    }
}

/// The ledger's answer to an insert request.
#[derive(Debug)]
pub struct InsertTransactionResponse {
    pub ids: Option<Vec<u64>>,
    pub error: Option<Vec<String>>,
}

/// What came of one insertion.
#[derive(Debug, Clone, Copy, PartialEq, Eq, Structural)]
pub enum InsertOutcome {
    /// The ledger created a transaction with this id.
    Inserted(u64),
    /// The ledger created nothing: it already held the transaction, or returned no id.
    Existing,
    /// The call failed; the transaction was skipped.
    Failed,
}

/// An error message that signals a transaction the ledger already holds.
pub open spec fn is_duplicate_signal(message: Seq<char>) -> bool {
    occurs_in(message, DUPLICATE_MARKER@)
}

pub open spec fn any_duplicate_signal(errors: Seq<String>) -> bool {
    exists|i: int| 0 <= i < errors.len() && is_duplicate_signal(#[trigger] errors[i]@)
}

/// The outcome that an insert response stands for.
pub open spec fn response_outcome(r: InsertTransactionResponse) -> InsertOutcome {
    if r.error is Some && any_duplicate_signal(r.error.unwrap()@) {
        InsertOutcome::Existing
    } else if r.ids is Some && r.ids.unwrap()@.len() > 0 {
        InsertOutcome::Inserted(r.ids.unwrap()@[0])
    } else {
        InsertOutcome::Existing
    }
}

/// Whether an error message reported by the ledger signals an existing transaction.
pub fn is_duplicate_message(message: &str) -> (r: bool)
    ensures
        r == is_duplicate_signal(message@),
{
    contains(message, DUPLICATE_MARKER)
}

impl InsertTransactionResponse {
    /// Resolves the response: an existing transaction when any reported error signals
    /// one, else the first returned id, else no new transaction.
    pub fn outcome(&self) -> (r: InsertOutcome)
        ensures
            r == response_outcome(*self),
    {
        match &self.error {
            Some(errors) => {
                let mut i: usize = 0;
                while i < errors.len()
                    invariant
                        i <= errors@.len(),
                        self.error == Some(*errors),
                        forall|j: int| 0 <= j < i ==> !is_duplicate_signal(#[trigger] errors@[j]@),
                    decreases errors@.len() - i,
                {
                    if is_duplicate_message(errors[i].as_str()) {
                        assert(self.error.unwrap()@[i as int] == errors@[i as int]);
                        return InsertOutcome::Existing;
                    }
                    i = i + 1;
                }
                assert(!any_duplicate_signal(self.error.unwrap()@));
            },
            None => {},
        }
        match &self.ids {
            Some(ids) => {
                if ids.len() > 0 {
                    InsertOutcome::Inserted(ids[0])
                } else {
                    InsertOutcome::Existing
                }
            },
            None => InsertOutcome::Existing,
        }
    }
}

/// Ids of the transactions created, in order.
pub open spec fn inserted_ids(outcomes: Seq<InsertOutcome>) -> Seq<u64>
    decreases outcomes.len(),
{
    if outcomes.len() == 0 {
        Seq::empty()
    } else {
        let rest = inserted_ids(outcomes.drop_last());
        match outcomes.last() {
            InsertOutcome::Inserted(id) => rest.push(id),
            _ => rest,
        }
    }
}

/// Number of insertions that found the transaction already in the ledger.
pub open spec fn existing_count(outcomes: Seq<InsertOutcome>) -> nat
    decreases outcomes.len(),
{
    if outcomes.len() == 0 {
        0
    } else {
        existing_count(outcomes.drop_last()) + if outcomes.last() is Existing {
            1nat
        } else {
            0nat
        }
    }
}

/// A batch counts no more existing transactions than it has outcomes.
pub proof fn lemma_existing_count_bound(outcomes: Seq<InsertOutcome>)
    ensures
        existing_count(outcomes) <= outcomes.len(),
    decreases outcomes.len(),
{
    if outcomes.len() > 0 {
        lemma_existing_count_bound(outcomes.drop_last());
    }
}

/// Folds the outcomes of a batch into the ids created and the count of existing transactions.
/// Failed insertions count in neither.
pub fn tally_outcomes(outcomes: &Vec<InsertOutcome>) -> (r: (Vec<u64>, u64))
    ensures
        r.0@ == inserted_ids(outcomes@),
        r.1 == existing_count(outcomes@),
{
    let mut ids: Vec<u64> = Vec::new();
    let mut existing: u64 = 0;
    let mut i: usize = 0;
    while i < outcomes.len()
        invariant
            i <= outcomes@.len(),
            ids@ == inserted_ids(outcomes@.take(i as int)),
            existing == existing_count(outcomes@.take(i as int)),
        decreases outcomes@.len() - i,
    {
        let ghost next = outcomes@.take(i + 1);
        assert(next.drop_last() =~= outcomes@.take(i as int));
        proof {
            lemma_existing_count_bound(next);
        }
        match outcomes[i] {
            InsertOutcome::Inserted(id) => ids.push(id),
            InsertOutcome::Existing => existing = existing + 1,
            InsertOutcome::Failed => {},
        }
        i = i + 1;
    }
    assert(outcomes@.take(outcomes@.len() as int) =~= outcomes@);
    (ids, existing)
}

/// When the ledger answers every insertion of a batch with an existing-transaction
/// error, as it does for a batch it has already taken, the batch creates no transaction
/// and counts every one of its transactions as existing.
pub proof fn lemma_repeated_batch(responses: Seq<InsertTransactionResponse>)
    requires
        forall|i: int|
            0 <= i < responses.len() ==> (#[trigger] responses[i]).error is Some
                && any_duplicate_signal(responses[i].error.unwrap()@),
    ensures
        inserted_ids(responses.map_values(|r: InsertTransactionResponse| response_outcome(r)))
            == Seq::<u64>::empty(),
        existing_count(responses.map_values(|r: InsertTransactionResponse| response_outcome(r)))
            == responses.len(),
    decreases responses.len(),
{
    let outs = responses.map_values(|r: InsertTransactionResponse| response_outcome(r));
    if responses.len() > 0 {
        let init = responses.drop_last();
        assert(outs.drop_last() =~= init.map_values(
            |r: InsertTransactionResponse| response_outcome(r),
        ));
        assert forall|i: int| 0 <= i < init.len() implies (#[trigger] init[i]).error is Some
            && any_duplicate_signal(init[i].error.unwrap()@) by {
            assert(init[i] == responses[i]);
        }
        lemma_repeated_batch(init);
        assert(outs.last() == response_outcome(responses[responses.len() - 1]));
    }
}

} // verus!
