use fintoc_lunchmoney::ledger::TransactionStatus;
use fintoc_lunchmoney::money::{Amount, Currency, MoneyError};
use fintoc_lunchmoney::provider::{
    account_balance, balance_amount, Account, AccountCredentials, AccountType, Balance, BalanceError,
    Institution, Movement, MovementPager, MovementType, TransferAccount,
};
use fintoc_lunchmoney::time::Timestamp;

fn movement(amount: i32, currency: &str, kind: MovementType, description: &str) -> Movement {
    Movement {
        id: "mov_1".to_string(),
        object: "movement".to_string(),
        amount,
        post_date: Timestamp { seconds: 1_700_000_000, nanos: 0 },
        description: description.to_string(),
        transaction_date: None,
        currency: currency.to_string(),
        reference_id: None,
        movement_type: kind,
        pending: false,
        recipient_account: None,
        sender_account: None,
        comment: None,
    }
}

fn party(name: &str, institution: Option<&str>) -> TransferAccount {
    TransferAccount {
        holder_id: "111".to_string(),
        holder_name: name.to_string(),
        number: None,
        institution: institution.map(|n| Institution {
            id: "cl_banco".to_string(),
            name: n.to_string(),
            country: "cl".to_string(),
        }),
    }
}

fn account(currency: &str, balance: Balance) -> Account {
    Account {
        id: "acc_1".to_string(),
        object: "account".to_string(),
        name: "Cuenta".to_string(),
        official_name: "Cuenta Corriente".to_string(),
        number: None,
        holder_id: "111".to_string(),
        holder_name: "Ana".to_string(),
        account_type: "checking_account".to_string(),
        currency: currency.to_string(),
        balance,
        refreshed_at: None,
    }
}

#[test]
fn incoming_transfer_names_sender_and_institution() {
    let mut m = movement(5000, "CLP", MovementType::Transfer, "TRANSFERENCIA");
    m.sender_account = Some(party("Juan Perez", Some("Banco Estado")));
    m.recipient_account = Some(party("Someone Else", None));
    let t = m.to_lunchmoney_transaction(7).unwrap();
    assert_eq!(t.payee.as_deref(), Some("Juan Perez (Banco Estado)"));
}

#[test]
fn outgoing_transfer_names_recipient_verbatim() {
    let mut m = movement(-2500, "CLP", MovementType::Transfer, "TRANSFERENCIA");
    m.recipient_account = Some(party("  Maria Soto ", None));
    m.sender_account = Some(party("Juan Perez", Some("Banco Estado")));
    let t = m.to_lunchmoney_transaction(7).unwrap();
    assert_eq!(t.payee.as_deref(), Some("  Maria Soto "));
}

#[test]
fn zero_amount_transfer_uses_recipient() {
    let mut m = movement(0, "CLP", MovementType::Transfer, "X");
    m.recipient_account = Some(party("Rec", Some("Banco")));
    let t = m.to_lunchmoney_transaction(7).unwrap();
    assert_eq!(t.payee.as_deref(), Some("Rec (Banco)"));
}

#[test]
fn transfer_without_counterparty_uses_cleaned_description() {
    let m = movement(100, "CLP", MovementType::Transfer, "PAGO RECURRENTE NETFLIX");
    let t = m.to_lunchmoney_transaction(7).unwrap();
    assert_eq!(t.payee.as_deref(), Some("NETFLIX"));
}

#[test]
fn non_transfer_description_is_cleaned() {
    let m = movement(-3990, "CLP", MovementType::Other, "COMPRA NACIONAL SUPERMARKET X");
    assert_eq!(m.clean_description(), "SUPERMARKET X");
    let t = m.to_lunchmoney_transaction(7).unwrap();
    assert_eq!(t.payee.as_deref(), Some("SUPERMARKET X"));
    assert_eq!(t.original_name.as_deref(), Some("COMPRA NACIONAL SUPERMARKET X"));
}

#[test]
fn prefixes_are_matched_in_any_case_and_only_at_the_start() {
    let m = movement(1, "CLP", MovementType::Check, "compra internacional AMAZON");
    assert_eq!(m.clean_description(), "AMAZON");
    let m = movement(1, "CLP", MovementType::Other, "COMPRA INTER. STEAM");
    assert_eq!(m.clean_description(), "STEAM");
    let m = movement(1, "CLP", MovementType::Other, "CAFE COMPRA NACIONAL X");
    assert_eq!(m.clean_description(), "CAFE COMPRA NACIONAL X");
    let m = movement(1, "CLP", MovementType::Other, "COMPRA NACIONAL");
    assert_eq!(m.clean_description(), "COMPRA NACIONAL");
}

#[test]
fn transaction_fields_follow_the_movement() {
    let mut m = movement(-1999, "usd", MovementType::Other, "Coffee");
    m.id = "mov_abc".to_string();
    m.pending = true;
    m.comment = Some("note".to_string());
    m.transaction_date = Some(Timestamp { seconds: 1_600_000_000, nanos: 5 });
    let t = m.to_lunchmoney_transaction(42).unwrap();
    assert_eq!(t.external_id.as_deref(), Some("mov_abc"));
    assert_eq!(t.amount, Amount { ten_thousandths: -199900 });
    assert_eq!(t.amount.to_string(), "-19.9900");
    assert_eq!(t.currency.as_deref(), Some("usd"));
    assert_eq!(t.asset_id, Some(42));
    assert_eq!(t.status, TransactionStatus::Uncleared);
    assert_eq!(t.notes.as_deref(), Some("note"));
    assert_eq!(t.is_pending, Some(true));
    assert_eq!(t.date, Timestamp { seconds: 1_600_000_000, nanos: 5 });
    assert_eq!(t.id, None);
    assert!(t.tags.is_none());
}

#[test]
fn post_date_is_used_without_transaction_date() {
    let m = movement(10, "EUR", MovementType::Other, "x");
    let t = m.to_lunchmoney_transaction(1).unwrap();
    assert_eq!(t.date, Timestamp { seconds: 1_700_000_000, nanos: 0 });
    assert_eq!(t.currency.as_deref(), Some("eur"));
    assert_eq!(t.amount.to_string(), "0.1000");
}

#[test]
fn normalizing_twice_gives_the_same_transaction() {
    let m = movement(-3990, "CLP", MovementType::Other, "COMPRA NACIONAL SUPERMARKET X");
    let a = m.to_lunchmoney_transaction(3).unwrap();
    let b = m.to_lunchmoney_transaction(3).unwrap();
    assert_eq!(format!("{:?}", a), format!("{:?}", b));
    assert_eq!(a.external_id.as_deref(), Some("mov_1"));
}

#[test]
fn unsupported_movement_currency_is_an_error() {
    let m = movement(10, "gbp", MovementType::Other, "x");
    match m.to_lunchmoney_transaction(1) {
        Err(MoneyError::UnsupportedCurrency { code }) => assert_eq!(code, "GBP"),
        other => panic!("unexpected {:?}", other),
    }
}

#[test]
fn credit_balance_is_limit_less_available() {
    let b = Balance { available: 30000, current: 5, limit: 100000 };
    let (amount, currency) = account_balance(&account("CLP", b), AccountType::Credit).unwrap();
    assert_eq!(amount, Amount { ten_thousandths: 70000 * 10000 });
    assert_eq!(currency, Currency::Clp);
    let (amount, _) = account_balance(&account("USD", b), AccountType::Credit).unwrap();
    assert_eq!(amount.to_string(), "700.0000");
}

#[test]
fn checking_and_savings_use_current_balance() {
    let b = Balance { available: 1, current: 123456, limit: 0 };
    let (amount, _) = account_balance(&account("CLP", b), AccountType::Checking).unwrap();
    assert_eq!(amount.to_string(), "123456.0000");
    let (amount, currency) = account_balance(&account("EUR", b), AccountType::Savings).unwrap();
    assert_eq!(amount.to_string(), "1234.5600");
    assert_eq!(currency, Currency::Eur);
}

#[test]
fn balance_errors() {
    let b = Balance { available: 0, current: 1, limit: 0 };
    match account_balance(&account("ars", b), AccountType::Checking) {
        Err(BalanceError::UnsupportedCurrency { code }) => assert_eq!(code, "ARS"),
        other => panic!("unexpected {:?}", other),
    }
    match account_balance(&account("clp", b), AccountType::Checking) {
        Err(BalanceError::UnknownIsoCurrency { code }) => assert_eq!(code, "clp"),
        other => panic!("unexpected {:?}", other),
    }
    let huge = Balance { available: i128::MIN, current: 0, limit: 1 };
    assert_eq!(
        account_balance(&account("CLP", huge), AccountType::Credit),
        Err(BalanceError::OutOfRange)
    );
}

#[test]
fn pagination_stops_at_the_first_empty_page() {
    let sizes = [300usize, 300, 0];
    let mut pager = MovementPager::new();
    let mut requested = Vec::new();
    while let Some(page) = pager.next_request() {
        requested.push(page);
        let size = sizes[requested.len() - 1];
        let records = (0..size)
            .map(|_| movement(1, "CLP", MovementType::Other, "x"))
            .collect::<Vec<_>>();
        pager.receive(records);
    }
    assert_eq!(requested, vec![1, 2, 3]);
    assert_eq!(pager.requests, 3);
    assert_eq!(pager.into_movements().len(), 600);
}

#[test]
fn pagination_of_an_empty_account() {
    let mut pager = MovementPager::new();
    assert_eq!(pager.next_request(), Some(1));
    pager.receive(Vec::new());
    assert_eq!(pager.next_request(), None);
    assert_eq!(pager.into_movements().len(), 0);
}

#[test]
fn credentials_hold_their_fields() {
    let c = AccountCredentials {
        secret_token: "sk".to_string(),
        link_token: "lt".to_string(),
        account_id: "acc".to_string(),
    };
    assert_eq!(c.account_id, "acc");
}

#[test]
fn balance_amount_per_account_type() {
    let b = Balance { available: 30000, current: 12, limit: 100000 };
    assert_eq!(
        balance_amount(b, AccountType::Credit, Currency::Clp),
        Some(Amount { ten_thousandths: 700000000 })
    );
    assert_eq!(
        balance_amount(b, AccountType::Checking, Currency::Usd),
        Some(Amount { ten_thousandths: 1200 })
    );
    let huge = Balance { available: i128::MIN, current: 0, limit: 1 };
    assert_eq!(balance_amount(huge, AccountType::Credit, Currency::Usd), None);
}

#[test]
fn iso_codes_in_upper_case_are_listed() {
    let b = Balance { available: 0, current: 5, limit: 0 };
    for code in ["CLP", "USD", "EUR"] {
        assert!(account_balance(&account(code, b), AccountType::Savings).is_ok());
    }
}
