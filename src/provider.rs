//! Records of the banking-data provider, and how they become ledger records.

use crate::ledger::{opt_view, Transaction, TransactionStatus, TransactionView};
use crate::money::{
    amount_from_minor_units, in_amount_range, minor_units_amount, minor_units_value, Amount,
    Currency, MoneyError,
    currency_of_code,
};
use crate::text::{lower_of, lowercase, regex_replace, regex_replace_first, upper_of, uppercase};
use crate::time::Timestamp;
use vstd::prelude::*;

verus! {

/// Bank-generated prefixes stripped from a description, in any case, with the blank after them.
pub const KNOWN_PREFIX_PATTERN: &'static str =
    "^(?i)(COMPRA INTERNACIONAL|COMPRA NACIONAL|PAGO RECURRENTE|COMPRA INTER.)\\s";

/// Number of movements asked for in one page.
pub const PAGE_SIZE: u64 = 300;

/// Whether `code` is the alphabetic code of a currency in the ISO 4217 table.
pub uninterp spec fn iso_listed(code: Seq<char>) -> bool;

/// Relies on `rusty_money::iso::find`: it looks `code` up, as given, among the
/// alphabetic codes of its ISO 4217 table, which holds "CLP", "USD" and "EUR".
#[verifier::external_body]
fn iso_currency_listed(code: &str) -> (r: bool)
    ensures
        r == iso_listed(code@),
        code@ == Currency::Clp.code() || code@ == Currency::Usd.code() || code@
            == Currency::Eur.code() ==> r,
{
    rusty_money::iso::find(code).is_some()
}

#[derive(Debug)]
pub struct Institution {
    pub id: String,
    pub name: String,
    pub country: String,
}

/// Balances of an account, in minor units.
#[derive(Debug, Clone, Copy, PartialEq, Eq, Structural)]
pub struct Balance {
    pub available: i128,
    pub current: i128,
    pub limit: i128,
}

#[derive(Debug)]
pub struct Account {
    pub id: String,
    pub object: String,
    pub name: String,
    pub official_name: String,
    pub number: Option<String>,
    pub holder_id: String,
    pub holder_name: String,
    pub account_type: String,
    pub currency: String,
    pub balance: Balance,
    pub refreshed_at: Option<Timestamp>,
}

/// The other side of a transfer.
#[derive(Debug)]
pub struct TransferAccount {
    pub holder_id: String,
    pub holder_name: String,
    pub number: Option<String>,
    pub institution: Option<Institution>,
}

#[derive(Debug, Clone, Copy, PartialEq, Eq, Structural)]
pub enum MovementType {
    Transfer,
    Check,
    Other,
}

/// A movement of money on a bank account.
#[derive(Debug)]
pub struct Movement {
    pub id: String,
    pub object: String,
    /// Minor units; positive when money comes in.
    pub amount: i32,
    pub post_date: Timestamp,
    pub description: String,
    pub transaction_date: Option<Timestamp>,
    pub currency: String,
    pub reference_id: Option<String>,
    pub movement_type: MovementType,
    pub pending: bool,
    pub recipient_account: Option<TransferAccount>,
    pub sender_account: Option<TransferAccount>,
    pub comment: Option<String>,
}

impl View for Institution {
    type V = (Seq<char>, Seq<char>, Seq<char>);

    open spec fn view(&self) -> (Seq<char>, Seq<char>, Seq<char>) {
        (self.id@, self.name@, self.country@)
    }
}

/// The content of a [`TransferAccount`], with text as character sequences.
pub struct TransferAccountView {
    pub holder_id: Seq<char>,
    pub holder_name: Seq<char>,
    pub number: Option<Seq<char>>,
    pub institution: Option<(Seq<char>, Seq<char>, Seq<char>)>,
}

impl View for TransferAccount {
    type V = TransferAccountView;

    open spec fn view(&self) -> TransferAccountView {
        TransferAccountView {
            holder_id: self.holder_id@,
            holder_name: self.holder_name@,
            number: opt_view(self.number),
            institution: match self.institution {
                Some(i) => Some(i@),
                None => None,
            },
        }
    }
}

pub open spec fn party_view(o: Option<TransferAccount>) -> Option<TransferAccountView> {
    match o {
        Some(a) => Some(a@),
        None => None,
    }
}

/// The content of a [`Movement`], with text as character sequences.
pub struct MovementView {
    pub id: Seq<char>,
    pub object: Seq<char>,
    pub amount: i32,
    pub post_date: Timestamp,
    pub description: Seq<char>,
    pub transaction_date: Option<Timestamp>,
    pub currency: Seq<char>,
    pub reference_id: Option<Seq<char>>,
    pub movement_type: MovementType,
    pub pending: bool,
    pub recipient_account: Option<TransferAccountView>,
    pub sender_account: Option<TransferAccountView>,
    pub comment: Option<Seq<char>>,
}

impl View for Movement {
    type V = MovementView;

    open spec fn view(&self) -> MovementView {
        MovementView {
            id: self.id@,
            object: self.object@,
            amount: self.amount,
            post_date: self.post_date,
            description: self.description@,
            transaction_date: self.transaction_date,
            currency: self.currency@,
            reference_id: opt_view(self.reference_id),
            movement_type: self.movement_type,
            pending: self.pending,
            recipient_account: party_view(self.recipient_account),
            sender_account: party_view(self.sender_account),
            comment: opt_view(self.comment),
        }
    }
}

/// What identifies one account to the provider.
#[derive(Debug)]
pub struct AccountCredentials {
    pub secret_token: String,
    pub link_token: String,
    pub account_id: String,
}

#[derive(Debug, Clone, Copy, PartialEq, Eq, Structural)]
pub enum AccountType {
    Checking,
    Savings,
    Credit,
}

/// A description with a known bank prefix removed from its start.
pub open spec fn cleaned_description(d: Seq<char>) -> Seq<char> {
    match regex_replace_first(KNOWN_PREFIX_PATTERN@, d, Seq::empty()) {
        Some(s) => s,
        None => d,
    }
}

/// The counterparty of a transfer: the sender of money coming in, the recipient of money going out.
pub open spec fn counterparty(m: Movement) -> Option<TransferAccount> {
    if m.amount > 0 {
        m.sender_account
    } else {
        m.recipient_account
    }
}

/// The payee shown in the ledger for a movement.
pub open spec fn payee_text(m: Movement) -> Seq<char> {
    match m.movement_type {
        MovementType::Transfer => match counterparty(m) {
            Some(acc) => match acc.institution {
                Some(inst) => acc.holder_name@ + seq![' ', '('] + inst.name@ + seq![')'],
                None => acc.holder_name@,
            },
            None => cleaned_description(m.description@),
        },
        _ => cleaned_description(m.description@),
    }
}

/// The ledger transaction for a movement in currency `c`, on asset `asset_id`.
pub open spec fn normalized(m: Movement, asset_id: u64, c: Currency) -> TransactionView {
    TransactionView {
        id: None,
        date: match m.transaction_date {
            Some(d) => d,
            None => m.post_date,
        },
        payee: Some(payee_text(m)),
        amount: Amount { ten_thousandths: minor_units_value(m.amount as int, c) as i128 },
        currency: Some(lower_of(m.currency@)),
        category_id: None,
        asset_id: Some(asset_id),
        status: TransactionStatus::Uncleared,
        parent_id: None,
        is_group: None,
        group_id: None,
        tags: None,
        external_id: Some(m.id@),
        notes: opt_view(m.comment),
        original_name: Some(m.description@),
        is_pending: Some(m.pending),
    }
}

/// The ledger transaction for a movement, or the upper-cased code of its unsupported currency.
pub open spec fn normalize_result(m: Movement, asset_id: u64) -> Result<TransactionView, Seq<char>> {
    match currency_of_code(m.currency@) {
        Some(c) => Ok(normalized(m, asset_id, c)),
        None => Err(upper_of(m.currency@)),
    }
}

/// Normalising depends on the content of the movement and the asset alone: two
/// movements with the same content give the same result. The transaction always
/// carries the movement's id as its external id, and starts uncleared.
pub proof fn lemma_normalize_pure(m1: Movement, m2: Movement, asset_id: u64)
    requires
        m1@ == m2@,
    ensures
        normalize_result(m1, asset_id) == normalize_result(m2, asset_id),
        normalize_result(m1, asset_id) is Ok ==> normalize_result(m1, asset_id)->Ok_0.external_id
            == Some(m1.id@),
        normalize_result(m1, asset_id) is Ok ==> normalize_result(m1, asset_id)->Ok_0.status
            == TransactionStatus::Uncleared,
{
    assert(party_view(counterparty(m1)) == party_view(counterparty(m2)));
    assert(payee_text(m1) == payee_text(m2)) by {
        match (counterparty(m1), counterparty(m2)) {
            (Some(a1), Some(a2)) => {
                assert(a1@ == a2@);
                assert(a1.holder_name@ == a2.holder_name@);
                match (a1.institution, a2.institution) {
                    (Some(i1), Some(i2)) => {
                        assert(i1@ == i2@);
                    },
                    _ => {},
                }
            },
            _ => {},
        }
    }
    assert(opt_view(m1.comment) == opt_view(m2.comment));
}

/// A transfer of money coming in from a sender with an institution is paid by
/// "holder (institution)".
pub proof fn lemma_incoming_transfer_payee(m: Movement, asset_id: u64)
    requires
        m.movement_type == MovementType::Transfer,
        m.amount > 0,
        m.sender_account is Some,
        m.sender_account.unwrap().institution is Some,
        currency_of_code(m.currency@) is Some,
    ensures
        normalize_result(m, asset_id)->Ok_0.payee == Some(
            m.sender_account.unwrap().holder_name@ + seq![' ', '('] + m.sender_account.unwrap()
                .institution.unwrap().name@ + seq![')'],
        ),
{
}

/// A transfer of money going out to a recipient without an institution is paid by
/// the recipient's holder name as it stands.
pub proof fn lemma_outgoing_transfer_payee(m: Movement, asset_id: u64)
    requires
        m.movement_type == MovementType::Transfer,
        m.amount <= 0,
        m.recipient_account is Some,
        m.recipient_account.unwrap().institution is None,
        currency_of_code(m.currency@) is Some,
    ensures
        normalize_result(m, asset_id)->Ok_0.payee == Some(m.recipient_account.unwrap().holder_name@),
{
}

impl Movement {
    /// The description with a known bank prefix removed from its start.
    pub fn clean_description(&self) -> (r: String)
        ensures
            r@ == cleaned_description(self.description@),
    {
        let nothing = "";
        proof {
            reveal_strlit("");
        }
        assert(nothing@ =~= Seq::<char>::empty());
        match regex_replace(KNOWN_PREFIX_PATTERN, self.description.as_str(), nothing) {
            Some(s) => s,
            None => self.description.clone(),
        }
    }

    /// The payee shown in the ledger.
    pub fn payee(&self) -> (r: String)
        ensures
            r@ == payee_text(*self),
    {
        match self.movement_type {
            MovementType::Transfer => {
                let party = if self.amount > 0 {
                    &self.sender_account
                } else {
                    &self.recipient_account
                };
                match party {
                    Some(acc) => match &acc.institution {
                        Some(inst) => {
                            proof {
                                reveal_strlit(" (");
                                reveal_strlit(")");
                            }
                            let mut s = acc.holder_name.clone();
                            s.append(" (");
                            s.append(inst.name.as_str());
                            s.append(")");
                            assert(s@ =~= acc.holder_name@ + seq![' ', '('] + inst.name@ + seq![')']);
                            s
                        },
                        None => acc.holder_name.clone(),
                    },
                    None => self.clean_description(),
                }
            },
            _ => self.clean_description(),
        }
    }

    /// The ledger transaction for this movement on asset `asset_id`. Fails on a
    /// currency other than CLP, USD or EUR (in any case).
    pub fn to_lunchmoney_transaction(&self, asset_id: u64) -> (r: Result<Transaction, MoneyError>)
        ensures
            match r {
                Ok(t) => normalize_result(*self, asset_id) == Ok::<TransactionView, Seq<char>>(t@),
                Err(e) => e matches MoneyError::UnsupportedCurrency { code } && normalize_result(
                    *self,
                    asset_id,
                ) == Err::<TransactionView, Seq<char>>(code@),
            },
    {
        let amount = match amount_from_minor_units(self.amount as i128, self.currency.as_str()) {
            Ok(a) => a,
            Err(e) => {
                assert(currency_of_code(self.currency@) is None) by {
                    if currency_of_code(self.currency@) is Some {
                        let c = currency_of_code(self.currency@).unwrap();
                        assert(in_amount_range(minor_units_value(self.amount as int, c)))
                            by (nonlinear_arith)
                            requires
                                -2147483648 <= self.amount <= 2147483647,
                                c.scale() == 1 || c.scale() == 100,
                        ;
                    }
                }
                return Err(e);
            },
        };
        let notes = match &self.comment {
            Some(c) => Some(c.clone()),
            None => None,
        };
        let t = Transaction {
            id: None,
            date: match self.transaction_date {
                Some(d) => d,
                None => self.post_date,
            },
            payee: Some(self.payee()),
            amount,
            currency: Some(lowercase(self.currency.as_str())),
            category_id: None,
            asset_id: Some(asset_id),
            status: TransactionStatus::Uncleared,
            parent_id: None,
            is_group: None,
            group_id: None,
            tags: None,
            external_id: Some(self.id.clone()),
            notes,
            original_name: Some(self.description.clone()),
            is_pending: Some(self.pending),
        };
        assert(t@ == normalized(*self, asset_id, currency_of_code(self.currency@).unwrap()));
        Ok(t)
    }
}

/// Why an account's balance could not be read.
#[derive(Debug, Clone, PartialEq, Eq)]
pub enum BalanceError {
    /// The currency code, upper-cased, is not one of the supported currencies.
    UnsupportedCurrency { code: String },
    /// The balance does not fit the amount's range.
    OutOfRange,
    /// The currency code, as given, is not in the ISO 4217 table.
    UnknownIsoCurrency { code: String },
}

/// The balance of an account, in minor units: the current balance of a checking or
/// savings account, the amount drawn (limit less available) on a credit account.
pub open spec fn balance_minor_units(b: Balance, t: AccountType) -> int {
    match t {
        AccountType::Credit => b.limit as int - b.available as int,
        _ => b.current as int,
    }
}

/// The outcome of reading an account's balance, by the error variant it yields.
pub open spec fn balance_result_ok(account: Account, t: AccountType) -> Option<(Amount, Currency)> {
    match currency_of_code(account.currency@) {
        Some(c) => {
            let v = minor_units_value(balance_minor_units(account.balance, t), c);
            if in_amount_range(v) && iso_listed(account.currency@) {
                Some((Amount { ten_thousandths: v as i128 }, c))
            } else {
                None
            }
        },
        None => None,
    }
}

/// The balance `b` of an account of type `t` as an amount of currency `c`;
/// `None` when it is out of range.
pub fn balance_amount(b: Balance, t: AccountType, c: Currency) -> (r: Option<Amount>)
    ensures
        r == minor_units_amount(balance_minor_units(b, t), c),
{
    let raw = match t {
        AccountType::Credit => b.limit.checked_sub(b.available),
        _ => Some(b.current),
    };
    match raw {
        Some(x) => Amount::from_minor_units(x, c),
        None => {
            let ghost w = balance_minor_units(b, t);
            assert(!in_amount_range(minor_units_value(w, c))) by (nonlinear_arith)
                requires
                    w < -170141183460469231731687303715884105728
                        || w > 170141183460469231731687303715884105727,
                    c.scale() == 1 || c.scale() == 100,
                    minor_units_value(w, c) == w * 10000 / c.scale(),
            ;
            None
        },
    }
}

/// The balance of an account as an amount in its currency.
pub fn account_balance(account: &Account, account_type: AccountType) -> (r: Result<
    (Amount, Currency),
    BalanceError,
>)
    ensures
        match currency_of_code(account.currency@) {
            None => r matches Err(BalanceError::UnsupportedCurrency { code }) && code@ == upper_of(
                account.currency@,
            ),
            Some(c) => {
                let v = minor_units_value(balance_minor_units(account.balance, account_type), c);
                if !in_amount_range(v) {
                    r matches Err(BalanceError::OutOfRange)
                } else if !iso_listed(account.currency@) {
                    r matches Err(BalanceError::UnknownIsoCurrency { code }) && code@
                        == account.currency@
                } else {
                    r == Ok::<(Amount, Currency), BalanceError>(
                        (Amount { ten_thousandths: v as i128 }, c),
                    )
                }
            },
        },
{
    let currency = match Currency::from_code(account.currency.as_str()) {
        Some(c) => c,
        None => {
            return Err(
                BalanceError::UnsupportedCurrency { code: uppercase(account.currency.as_str()) },
            );
        },
    };
    let amount = match balance_amount(account.balance, account_type, currency) {
        Some(a) => a,
        None => {
            return Err(BalanceError::OutOfRange);
        },
    };
    if !iso_currency_listed(account.currency.as_str()) {
        return Err(BalanceError::UnknownIsoCurrency { code: account.currency.clone() });
    }
    Ok((amount, currency))
}

/// The state of paging through an account's movements.
pub struct PagerState {
    pub next_page: nat,
    pub requests: nat,
    pub fetched: nat,
    pub finished: bool,
}

/// Before the first request: page one is asked for first.
pub open spec fn pager_start() -> PagerState {
    PagerState { next_page: 1, requests: 0, fetched: 0, finished: false }
}

/// The state after a page of `page_len` movements came back: an empty page ends the paging.
pub open spec fn pager_step(p: PagerState, page_len: nat) -> PagerState {
    PagerState {
        next_page: if page_len == 0 {
            p.next_page
        } else {
            p.next_page + 1
        },
        requests: p.requests + 1,
        fetched: p.fetched + page_len,
        finished: page_len == 0,
    }
}

/// The state after pages of the given sizes came back, in order.
pub open spec fn pager_run(sizes: Seq<nat>) -> PagerState
    decreases sizes.len(),
{
    if sizes.len() == 0 {
        pager_start()
    } else {
        pager_step(pager_run(sizes.drop_last()), sizes.last())
    }
}

pub open spec fn seq_sum(sizes: Seq<nat>) -> nat
    decreases sizes.len(),
{
    if sizes.len() == 0 {
        0
    } else {
        seq_sum(sizes.drop_last()) + sizes.last()
    }
}

/// Paging ends at the first empty page: when every page but the last holds movements
/// and the last is empty, a page is requested after each non-empty one, the paging
/// finishes after exactly one request per page, and it holds every movement of them.
pub proof fn lemma_pagination_ends(sizes: Seq<nat>)
    requires
        sizes.len() >= 1,
        sizes.last() == 0,
        forall|i: int| 0 <= i < sizes.len() - 1 ==> sizes[i] > 0,
    ensures
        forall|k: int| 0 <= k < sizes.len() ==> !(#[trigger] pager_run(sizes.take(k))).finished,
        pager_run(sizes).finished,
        pager_run(sizes).requests == sizes.len(),
        pager_run(sizes).fetched == seq_sum(sizes),
{
    lemma_pager_prefix(sizes);
    assert forall|k: int| 0 <= k < sizes.len() implies !(#[trigger] pager_run(
        sizes.take(k),
    )).finished by {
        if k > 0 {
            let t = sizes.take(k);
            assert(t.last() == sizes[k - 1]);
        }
    }
}

proof fn lemma_pager_prefix(sizes: Seq<nat>)
    ensures
        pager_run(sizes).requests == sizes.len(),
        pager_run(sizes).fetched == seq_sum(sizes),
        sizes.len() > 0 ==> pager_run(sizes).finished == (sizes.last() == 0),
        sizes.len() == 0 ==> !pager_run(sizes).finished,
        forall|k: int| 0 < k <= sizes.len() ==> (#[trigger] pager_run(sizes.take(k))).finished
            == (sizes[k - 1] == 0),
    decreases sizes.len(),
{
    if sizes.len() > 0 {
        let init = sizes.drop_last();
        lemma_pager_prefix(init);
        assert forall|k: int| 0 < k <= sizes.len() implies (#[trigger] pager_run(
            sizes.take(k),
        )).finished == (sizes[k - 1] == 0) by {
            let t = sizes.take(k);
            assert(t.last() == sizes[k - 1]);
        }
    }
}

/// Pages through an account's movements: asks for page one, then each following
/// page, until a page comes back empty, and keeps every movement in order.
pub struct MovementPager {
    pub next_page: u64,
    pub requests: u64,
    pub finished: bool,
    pub movements: Vec<Movement>,
}

impl MovementPager {
    pub open spec fn state(self) -> PagerState {
        PagerState {
            next_page: self.next_page as nat,
            requests: self.requests as nat,
            fetched: self.movements@.len(),
            finished: self.finished,
        }
    }

    pub fn new() -> (r: MovementPager)
        ensures
            r.state() == pager_start(),
    {
        MovementPager { next_page: 1, requests: 0, finished: false, movements: Vec::new() }
    }

    /// The page to ask for next, or `None` once paging has ended.
    pub fn next_request(&self) -> (r: Option<u64>)
        ensures
            r == (if self.finished {
                None
            } else {
                Some(self.next_page)
            }),
    {
        if self.finished {
            None
        } else {
            Some(self.next_page)
        }
    }

    /// Takes in the movements of the page last asked for.
    pub fn receive(&mut self, page: Vec<Movement>)
        requires
            !old(self).finished,
            old(self).next_page < u64::MAX,
            old(self).requests < u64::MAX,
        ensures
            final(self).state() == pager_step(old(self).state(), page@.len()),
            final(self).movements@ == old(self).movements@ + page@,
    {
        let mut page = page;
        let n = page.len();
        self.movements.append(&mut page);
        self.requests = self.requests + 1;
        if n == 0 {
            self.finished = true;
        } else {
            self.next_page = self.next_page + 1;
            self.finished = false;
        }
    }

    /// The movements gathered, in the provider's order.
    pub fn into_movements(self) -> (r: Vec<Movement>)
        ensures
            r@ == self.movements@,
    {
        self.movements
    }
}

} // verus!
