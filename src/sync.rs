//! The decisions of a sync run: its time window, which movements become
//! transactions, how they are batched, and what the batches add up to.

use crate::ledger::{
    existing_count, inserted_ids, tally_outcomes, InsertOutcome, Transaction, TransactionView,
};
use crate::provider::{normalize_result, Movement};
use crate::time::Timestamp;
use itertools::Itertools;
use vstd::prelude::*;

verus! {

/// Number of transactions sent to the ledger in one batch.
pub const BATCH_SIZE: usize = 50;

/// The span that a human-readable duration such as "30days" or "2h 37min" denotes,
/// as whole seconds and nanoseconds.
pub uninterp spec fn duration_of_text(text: Seq<char>) -> Option<(u64, u32)>;

/// Most decimal digits a look-back may hold. Every number humantime reads is written
/// in ASCII digits, so with at most this many the total stays far below `u64::MAX`
/// seconds, where its final `Duration::new` would panic.
pub const LOOKBACK_MAX_DIGITS: usize = 11;

/// Number of ASCII decimal digits in `s`.
pub open spec fn digit_count(s: Seq<char>) -> nat
    decreases s.len(),
{
    if s.len() == 0 {
        0
    } else {
        digit_count(s.drop_last()) + if '0' <= s.last() && s.last() <= '9' {
            1nat
        } else {
            0nat
        }
    }
}

/// Counts the ASCII decimal digits of `text`.
pub fn count_digits(text: &str) -> (r: usize)
    ensures
        r == digit_count(text@),
{
    let n = text.unicode_len();
    let mut count: usize = 0;
    let mut i: usize = 0;
    while i < n
        invariant
            n == text@.len(),
            i <= n,
            count == digit_count(text@.take(i as int)),
            count <= i,
        decreases n - i,
    {
        let c = text.get_char(i);
        assert(text@.take(i + 1).drop_last() =~= text@.take(i as int));
        assert(text@.take(i + 1).last() == c);
        if '0' <= c && c <= '9' {
            count = count + 1;
        }
        i = i + 1;
    }
    assert(text@.take(n as int) =~= text@);
    count
}

/// Relies on `humantime::parse_duration`: reads a human-readable duration; std's
/// `Duration` keeps its sub-second part under one second. With few digits the sum
/// of the spans cannot overflow, so the call does not panic.
#[verifier::external_body]
fn parse_duration(text: &str) -> (r: Option<(u64, u32)>)
    requires
        digit_count(text@) <= LOOKBACK_MAX_DIGITS,
    ensures
        r == duration_of_text(text@),
        r is Some ==> r->Some_0.1 < 1_000_000_000,
{
    match humantime::parse_duration(text) {
        Ok(d) => Some((d.as_secs(), d.subsec_nanos())),
        Err(_) => None,
    }
}

/// Relies on `itertools::Itertools::chunks`: consecutive runs of `size` items in order,
/// the last one shorter when the items run out.
#[verifier::external_body]
fn chunked<T>(items: Vec<T>, size: usize) -> (r: Vec<Vec<T>>)
    requires
        size > 0,
    ensures
        r@.len() == (items@.len() + size - 1) / size as int,
        forall|i: int|
            #![trigger r@[i]]
            0 <= i < r@.len() ==> r@[i]@ == items@.subrange(
                i * size,
                if (i + 1) * size < items@.len() {
                    (i + 1) * size
                } else {
                    items@.len() as int
                },
            ),
{
    let chunks = items.into_iter().chunks(size);
    let r = (&chunks).into_iter().map(|c| c.collect()).collect();
    r
}

/// Why the sync window could not be formed.
#[derive(Debug, Clone, Copy, PartialEq, Eq, Structural)]
pub enum WindowError {
    /// The look-back is not a duration.
    InvalidDuration,
    /// The window's start falls outside the representable instants.
    OutOfRange,
    /// The look-back holds more than [`LOOKBACK_MAX_DIGITS`] digits.
    LookbackTooLong,
}

/// The instant `secs` seconds and `nanos` nanoseconds before `now`, if representable.
pub open spec fn instant_before(now: Timestamp, secs: u64, nanos: u32) -> Option<Timestamp> {
    let t = now.total_nanos() - (secs * 1_000_000_000 + nanos);
    let s = t / 1_000_000_000;
    if i64::MIN <= s <= i64::MAX {
        Some(Timestamp { seconds: s as i64, nanos: (t % 1_000_000_000) as u32 })
    } else {
        None
    }
}

/// The window of a sync run that ends at `now` and looks back by the duration `lookback`.
/// A look-back written with more than [`LOOKBACK_MAX_DIGITS`] digits is refused.
pub fn sync_window(now: Timestamp, lookback: &str) -> (r: Result<(Timestamp, Timestamp), WindowError>)
    requires
        now.wf(),
    ensures
        digit_count(lookback@) > LOOKBACK_MAX_DIGITS ==> r == Err::<(Timestamp, Timestamp), WindowError>(
            WindowError::LookbackTooLong,
        ),
        digit_count(lookback@) <= LOOKBACK_MAX_DIGITS ==> match duration_of_text(lookback@) {
            None => r == Err::<(Timestamp, Timestamp), WindowError>(WindowError::InvalidDuration),
            Some(d) => match instant_before(now, d.0, d.1) {
                Some(start) => r == Ok::<(Timestamp, Timestamp), WindowError>((start, now)),
                None => r == Err::<(Timestamp, Timestamp), WindowError>(WindowError::OutOfRange),
            },
        },
        r is Ok ==> r->Ok_0.0.wf(),
{
    if count_digits(lookback) > LOOKBACK_MAX_DIGITS {
        return Err(WindowError::LookbackTooLong);
    }
    let (secs, nanos) = match parse_duration(lookback) {
        Some(d) => d,
        None => {
            return Err(WindowError::InvalidDuration);
        },
    };
    let mut s: i128 = now.seconds as i128 - secs as i128;
    let mut n: i64 = now.nanos as i64 - nanos as i64;
    if n < 0 {
        n = n + 1_000_000_000;
        s = s - 1;
    }
    let ghost t = now.total_nanos() - (secs * 1_000_000_000 + nanos);
    assert(t == s * 1_000_000_000 + n);
    assert(t / 1_000_000_000 == s && t % 1_000_000_000 == n) by {
        vstd::arithmetic::div_mod::lemma_fundamental_div_mod_converse(
            t,
            1_000_000_000,
            s as int,
            n as int,
        );
    }
    if s < i64::MIN as i128 || s > i64::MAX as i128 {
        return Err(WindowError::OutOfRange);
    }
    Ok((Timestamp { seconds: s as i64, nanos: n as u32 }, now))
}

/// The transactions for the movements that normalise, in order; the others are left out.
pub open spec fn normalized_all(movements: Seq<Movement>, asset_id: u64) -> Seq<TransactionView>
    decreases movements.len(),
{
    if movements.len() == 0 {
        Seq::empty()
    } else {
        let rest = normalized_all(movements.drop_last(), asset_id);
        match normalize_result(movements.last(), asset_id) {
            Ok(t) => rest.push(t),
            Err(_) => rest,
        }
    }
}

/// Normalises each movement for asset `asset_id`, skipping those whose currency is unsupported.
pub fn normalize_all(movements: &Vec<Movement>, asset_id: u64) -> (r: Vec<Transaction>)
    ensures
        r@.map_values(|t: Transaction| t@) == normalized_all(movements@, asset_id),
{
    let mut out: Vec<Transaction> = Vec::new();
    let mut i: usize = 0;
    while i < movements.len()
        invariant
            i <= movements@.len(),
            out@.map_values(|t: Transaction| t@) == normalized_all(movements@.take(i as int), asset_id),
        decreases movements@.len() - i,
    {
        let ghost prev = out@;
        assert(movements@.take(i + 1).drop_last() =~= movements@.take(i as int));
        match movements[i].to_lunchmoney_transaction(asset_id) {
            Ok(t) => {
                out.push(t);
                assert(out@.map_values(|t: Transaction| t@) =~= prev.map_values(
                    |t: Transaction| t@,
                ).push(t@));
            },
            Err(_) => {},
        }
        i = i + 1;
    }
    assert(movements@.take(movements@.len() as int) =~= movements@);
    out
}

/// Splits transactions into consecutive batches of [`BATCH_SIZE`], the last one shorter.
pub fn batches(transactions: Vec<Transaction>) -> (r: Vec<Vec<Transaction>>)
    ensures
        r@.len() == (transactions@.len() + 49) / 50,
        forall|i: int|
            #![trigger r@[i]]
            0 <= i < r@.len() ==> r@[i]@ == transactions@.subrange(
                i * 50,
                batch_end(i + 1, transactions@.len() as int),
            ),
{
    chunked(transactions, BATCH_SIZE)
}

/// The batches joined back together, in order.
pub open spec fn joined(batches: Seq<Seq<Transaction>>) -> Seq<Transaction>
    decreases batches.len(),
{
    if batches.len() == 0 {
        Seq::empty()
    } else {
        joined(batches.drop_last()) + batches.last()
    }
}

/// Where the batch before batch `k` ends, among `n` transactions.
pub open spec fn batch_end(k: int, n: int) -> int {
    if k * 50 < n {
        k * 50
    } else {
        n
    }
}

proof fn lemma_joined_prefix(ts: Seq<Transaction>, bs: Seq<Seq<Transaction>>, k: int)
    requires
        bs.len() == (ts.len() + 49) / 50,
        forall|i: int|
            #![trigger bs[i]]
            0 <= i < bs.len() ==> bs[i] == ts.subrange(i * 50, batch_end(i + 1, ts.len() as int)),
        0 <= k <= bs.len(),
    ensures
        joined(bs.take(k)) == ts.take(batch_end(k, ts.len() as int)),
    decreases k,
{
    let n = ts.len() as int;
    if k == 0 {
        assert(joined(bs.take(0)) =~= ts.take(0));
    } else {
        lemma_joined_prefix(ts, bs, k - 1);
        assert(bs.take(k).drop_last() =~= bs.take(k - 1));
        assert(bs.take(k).last() == bs[k - 1]);
        assert((k - 1) * 50 < n) by (nonlinear_arith)
            requires
                k - 1 < (n + 49) / 50,
                n >= 0,
        ;
        assert(batch_end(k - 1, n) == (k - 1) * 50);
        assert(ts.take((k - 1) * 50) + ts.subrange((k - 1) * 50, batch_end(k, n)) =~= ts.take(
            batch_end(k, n),
        ));
    }
}

/// Batching keeps every transaction exactly once and in order: the batches, joined,
/// give back the transactions.
pub proof fn lemma_batches_join(ts: Seq<Transaction>, bs: Seq<Seq<Transaction>>)
    requires
        bs.len() == (ts.len() + 49) / 50,
        forall|i: int|
            #![trigger bs[i]]
            0 <= i < bs.len() ==> bs[i] == ts.subrange(i * 50, batch_end(i + 1, ts.len() as int)),
    ensures
        joined(bs) == ts,
{
    let n = ts.len() as int;
    lemma_joined_prefix(ts, bs, bs.len() as int);
    assert(bs.take(bs.len() as int) =~= bs);
    assert(bs.len() * 50 >= n) by (nonlinear_arith)
        requires
            bs.len() == (n + 49) / 50,
            n >= 0,
    ;
    assert(ts.take(n) =~= ts);
}

/// A step in syncing one account.
#[derive(Debug, Clone, Copy, PartialEq, Eq, Structural)]
pub enum SyncStep {
    /// Read the account's balance from the provider.
    FetchBalance,
    /// Read the movements of the window from the provider.
    FetchMovements,
    /// Normalise the movements and insert them into the ledger, batch by batch.
    InsertTransactions,
    /// Set the ledger asset's balance to the one read.
    UpdateBalance,
    /// Report what was inserted and what already existed.
    Report,
    /// Nothing is left to do for this account.
    Done,
}

/// The step that follows `step`: movements are skipped for an account flagged so,
/// and the balance is updated either way.
pub open spec fn step_after(step: SyncStep, skip_movements: bool) -> SyncStep {
    match step {
        SyncStep::FetchBalance => if skip_movements {
            SyncStep::UpdateBalance
        } else {
            SyncStep::FetchMovements
        },
        SyncStep::FetchMovements => SyncStep::InsertTransactions,
        SyncStep::InsertTransactions => SyncStep::UpdateBalance,
        SyncStep::UpdateBalance => SyncStep::Report,
        SyncStep::Report => SyncStep::Done,
        SyncStep::Done => SyncStep::Done,
    }
}

/// The steps taken for one account, from the first one on.
pub open spec fn steps_from(step: SyncStep, skip_movements: bool, count: nat) -> Seq<SyncStep>
    decreases count,
{
    if count == 0 {
        Seq::empty()
    } else {
        seq![step] + steps_from(step_after(step, skip_movements), skip_movements, (count - 1) as nat)
    }
}

impl SyncStep {
    /// The first step of syncing an account.
    pub fn first() -> (r: SyncStep)
        ensures
            r == SyncStep::FetchBalance,
    {
        SyncStep::FetchBalance
    }

    /// The step that follows this one.
    pub fn next(self, skip_movements: bool) -> (r: SyncStep)
        ensures
            r == step_after(self, skip_movements),
    {
        match self {
            SyncStep::FetchBalance => if skip_movements {
                SyncStep::UpdateBalance
            } else {
                SyncStep::FetchMovements
            },
            SyncStep::FetchMovements => SyncStep::InsertTransactions,
            SyncStep::InsertTransactions => SyncStep::UpdateBalance,
            SyncStep::UpdateBalance => SyncStep::Report,
            SyncStep::Report => SyncStep::Done,
            SyncStep::Done => SyncStep::Done,
        }
    }
}

/// Syncing an account reads the balance first, fetches and inserts movements only
/// when they are not skipped, then updates the balance in both cases, reports, and
/// ends.
pub proof fn lemma_sync_order(skip_movements: bool)
    ensures
        skip_movements ==> steps_from(SyncStep::FetchBalance, skip_movements, 4) == seq![
            SyncStep::FetchBalance,
            SyncStep::UpdateBalance,
            SyncStep::Report,
            SyncStep::Done,
        ],
        !skip_movements ==> steps_from(SyncStep::FetchBalance, skip_movements, 6) == seq![
            SyncStep::FetchBalance,
            SyncStep::FetchMovements,
            SyncStep::InsertTransactions,
            SyncStep::UpdateBalance,
            SyncStep::Report,
            SyncStep::Done,
        ],
{
    reveal_with_fuel(steps_from, 7);
    if skip_movements {
        assert(steps_from(SyncStep::FetchBalance, skip_movements, 4) =~= seq![
            SyncStep::FetchBalance,
            SyncStep::UpdateBalance,
            SyncStep::Report,
            SyncStep::Done,
        ]);
    } else {
        assert(steps_from(SyncStep::FetchBalance, skip_movements, 6) =~= seq![
            SyncStep::FetchBalance,
            SyncStep::FetchMovements,
            SyncStep::InsertTransactions,
            SyncStep::UpdateBalance,
            SyncStep::Report,
            SyncStep::Done,
        ]);
    }
}

/// What the batches of a sync run have added up to so far.
#[derive(Debug)]
pub struct SyncTally {
    /// Ids of the transactions the ledger created, in order.
    pub inserted_ids: Vec<u64>,
    /// Transactions the ledger already held.
    pub existing: u64,
}

impl SyncTally {
    pub fn new() -> (r: SyncTally)
        ensures
            r.inserted_ids@.len() == 0,
            r.existing == 0,
    {
        SyncTally { inserted_ids: Vec::new(), existing: 0 }
    }

    /// Adds the outcomes of one batch.
    pub fn add_batch(&mut self, outcomes: &Vec<InsertOutcome>)
        requires
            old(self).existing + outcomes@.len() <= u64::MAX,
        ensures
            final(self).inserted_ids@ == old(self).inserted_ids@ + inserted_ids(outcomes@),
            final(self).existing == old(self).existing + existing_count(outcomes@),
    {
        let (mut ids, existing) = tally_outcomes(outcomes);
        proof {
            crate::ledger::lemma_existing_count_bound(outcomes@);
        }
        self.inserted_ids.append(&mut ids);
        self.existing = self.existing + existing;
    }
}

} // verus!
