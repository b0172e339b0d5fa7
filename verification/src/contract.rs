//! The escrow lifecycle: create locks value under a commitment and a
//! deadline, a claim with the secret releases it to the beneficiary up to
//! the deadline, and a refund returns it to the depositor afterwards.

use crate::error::Error;
use crate::hashlock::{opens, valid_signature};
use crate::storage::{
    delete_item, get_max_count, read_item, set_item, DataItem, Ledger, LedgerView, Transfer,
};
use crate::u256::U256;
use soroban_sdk::Address;
use vstd::prelude::*;

verus! {

/// Whether the deadline `expired_at` has passed at time `now`. At the
/// deadline itself it has not.
pub open spec fn expired(expired_at: u64, now: u64) -> bool {
    expired_at < now
}

/// The transfer that takes the value of `item` into custody.
pub open spec fn deposit_of(contract: Address, item: DataItem) -> Transfer {
    Transfer { token: item.token, from: item.from, to: contract, amount: item.amount }
}

/// The transfer that releases the value of `item` to its beneficiary.
pub open spec fn release_of(contract: Address, item: DataItem) -> Transfer {
    Transfer { token: item.token, from: contract, to: item.to, amount: item.amount }
}

/// The transfer that returns the value of `item` to its depositor.
pub open spec fn return_of(contract: Address, item: DataItem) -> Transfer {
    Transfer { token: item.token, from: contract, to: item.from, amount: item.amount }
}

/// What a claim with the candidate `data` meets at time `now`, where `item`
/// is what the store holds under the identifier. The checks come in this
/// order: the record exists, the deadline has not passed, the candidate
/// opens the commitment.
pub open spec fn claim_outcome(item: Option<DataItem>, now: u64, data: Seq<u8>) -> Result<
    bool,
    Error,
> {
    match item {
        None => Err(Error::NotFound),
        Some(w) => if expired(w.expired_at, now) {
            Err(Error::AlreadyExpired)
        } else if !opens(w.hash, data) {
            Err(Error::InvalidSignature)
        } else {
            Ok(true)
        },
    }
}

/// What a refund meets at time `now`, where `item` is what the store holds
/// under the identifier: the record exists, and its deadline has passed.
pub open spec fn refund_outcome(item: Option<DataItem>, now: u64) -> Result<bool, Error> {
    match item {
        None => Err(Error::NotFound),
        Some(w) => if !expired(w.expired_at, now) {
            Err(Error::NotExpiredYet)
        } else {
            Ok(true)
        },
    }
}

/// The identifier that the next create returns.
pub open spec fn next_id(l: LedgerView) -> u64 {
    (l.counter + 1) as u64
}

/// The state after an escrow was created for `item`: the deposit is asked
/// of the gateway, an identifier is issued, and the record is stored
/// under it.
pub open spec fn created(l: LedgerView, item: DataItem) -> LedgerView {
    l.moved(deposit_of(l.contract, item)).counted().stored(next_id(l), item)
}

/// The state after a claim on `id` with the candidate `data`: on success
/// the record is gone and the release is asked of the gateway, and a
/// refused claim changes nothing.
pub open spec fn claimed(l: LedgerView, id: u64, data: Seq<u8>) -> LedgerView {
    if claim_outcome(l.item(id), l.timestamp, data) is Ok {
        l.deleted(id).moved(release_of(l.contract, l.entries[id].item))
    } else {
        l
    }
}

/// The state after a refund on `id`: on success the record is gone and
/// the return is asked of the gateway, and a refused refund changes
/// nothing.
pub open spec fn refunded(l: LedgerView, id: u64) -> LedgerView {
    if refund_outcome(l.item(id), l.timestamp) is Ok {
        l.deleted(id).moved(return_of(l.contract, l.entries[id].item))
    } else {
        l
    }
}

/// Creating an escrow keeps the records under issued identifiers.
pub proof fn lemma_created_keeps_wf(l: LedgerView, item: DataItem)
    requires
        l.wf(),
        l.counter < u64::MAX,
    ensures
        created(l, item).wf(),
{
    let after = created(l, item);
    assert forall|k: u64| #[trigger] after.has(k) implies 1 <= k <= after.counter by {
        if l.has(k) {
        }
    }
}

/// A claim, a refund and a read keep the records under issued identifiers.
pub proof fn lemma_settling_keeps_wf(l: LedgerView, id: u64, data: Seq<u8>)
    requires
        l.wf(),
    ensures
        claimed(l, id, data).wf(),
        refunded(l, id).wf(),
        l.touched(id).wf(),
{
    let after_claim = claimed(l, id, data);
    assert forall|k: u64| #[trigger] after_claim.has(k) implies 1 <= k <= after_claim.counter by {
        if l.has(k) {
        }
    }
    let after_refund = refunded(l, id);
    assert forall|k: u64| #[trigger]
        after_refund.has(k) implies 1 <= k <= after_refund.counter by {
        if l.has(k) {
        }
    }
    let after_read = l.touched(id);
    assert forall|k: u64| #[trigger] after_read.has(k) implies 1 <= k <= after_read.counter by {
        if l.has(k) {
        }
    }
}

/// Whether the deadline `expired_at` has passed at time `now`.
pub fn is_expired(expired_at: u64, now: u64) -> (passed: bool)
    ensures
        passed == expired(expired_at, now),
{
    expired_at < now
}

/// Whether the deadline `expired_at` has passed on the ledger's clock.
pub fn check_expired(env: &Ledger, expired_at: u64) -> (passed: bool)
    ensures
        passed == expired(expired_at, env@.timestamp),
{
    let now = env.timestamp();
    is_expired(expired_at, now)
}

/// Asks the gateway to move `amount` of `token` from `from` to `to`.
pub fn move_token(env: &mut Ledger, token: &Address, from: &Address, to: &Address, amount: i128)
    ensures
        final(env)@ == old(env)@.moved(
            Transfer { token: *token, from: *from, to: *to, amount },
        ),
{
    env.request(
        Transfer {
            token: crate::address::clone_address(token),
            from: crate::address::clone_address(from),
            to: crate::address::clone_address(to),
            amount,
        },
    );
}

/// Decides a claim with the candidate `data` at time `now` on what the
/// store holds under the identifier.
pub fn check_claim(item: &Option<DataItem>, now: u64, data: &[u8]) -> (outcome: Result<bool, Error>)
    ensures
        outcome == claim_outcome(*item, now, data@),
{
    match item {
        None => Err(Error::NotFound),
        Some(w) => {
            if is_expired(w.expired_at, now) {
                return Err(Error::AlreadyExpired);
            }
            if !valid_signature(&w.hash, data) {
                return Err(Error::InvalidSignature);
            }
            Ok(true)
        },
    }
}

/// Decides a refund at time `now` on what the store holds under the
/// identifier.
pub fn check_refund(item: &Option<DataItem>, now: u64) -> (outcome: Result<bool, Error>)
    ensures
        outcome == refund_outcome(*item, now),
{
    match item {
        None => Err(Error::NotFound),
        Some(w) => {
            if !is_expired(w.expired_at, now) {
                return Err(Error::NotExpiredYet);
            }
            Ok(true)
        },
    }
}

/// The escrow's entry points.
pub struct Contract;

impl Contract {
    /// Locks `amount` of `token` from `from` for `to` until `expired_at`
    /// under the commitment `hash`, and returns the new escrow's
    /// identifier. No sign is asked of `amount`: what the gateway makes of
    /// a zero or negative deposit is the gateway's rule.
    pub fn create(
        env: &mut Ledger,
        from: Address,
        to: Address,
        token: Address,
        amount: i128,
        expired_at: u64,
        hash: U256,
    ) -> (id: u64)
        requires
            old(env)@.counter < u64::MAX,
        ensures
            id == old(env)@.counter + 1,
            final(env)@ == created(
                old(env)@,
                DataItem { from, to, token, expired_at, hash, amount },
            ),
            old(env)@.wf() ==> final(env)@.wf(),
    {
        Contract::create_item(env, DataItem { from, to, token, expired_at, hash, amount })
    }

    /// Creates the escrow that `data` describes, and returns its
    /// identifier.
    pub fn create_item(env: &mut Ledger, data: DataItem) -> (id: u64)
        requires
            old(env)@.counter < u64::MAX,
        ensures
            id == old(env)@.counter + 1,
            final(env)@ == created(old(env)@, data),
            old(env)@.wf() ==> final(env)@.wf(),
    {
        let custody = env.current_contract_address();
        move_token(env, &data.token, &data.from, &custody, data.amount);
        let id = get_max_count(env);
        set_item(env, id, &data);
        proof {
            if old(env)@.wf() {
                lemma_created_keeps_wf(old(env)@, data);
            }
        }
        id
    }

    /// Returns the value of an escrow to its depositor once the deadline
    /// has passed. Anyone may ask for it. A refused refund changes nothing,
    /// not even the record's liveness.
    pub fn cancel_expired(env: &mut Ledger, id: u64) -> (outcome: Result<bool, Error>)
        ensures
            outcome == refund_outcome(old(env)@.item(id), old(env)@.timestamp),
            final(env)@ == refunded(old(env)@, id),
            outcome is Err ==> final(env)@ == old(env)@,
            old(env)@.wf() ==> final(env)@.wf(),
    {
        let item = env.find_item(id);
        let outcome = check_refund(&item, env.timestamp());
        if let Some(w) = item {
            if outcome.is_ok() {
                delete_item(env, id);
                let custody = env.current_contract_address();
                move_token(env, &w.token, &custody, &w.from, w.amount);
            }
        }
        proof {
            if old(env)@.wf() {
                lemma_settling_keeps_wf(old(env)@, id, Seq::empty());
            }
        }
        outcome
    }

    /// Releases the value of an escrow to its beneficiary, if the deadline
    /// has not passed and the candidate `data` opens the commitment. A
    /// refused claim changes nothing, not even the record's liveness.
    pub fn provide_data(env: &mut Ledger, id: u64, data: &[u8]) -> (outcome: Result<bool, Error>)
        ensures
            outcome == claim_outcome(old(env)@.item(id), old(env)@.timestamp, data@),
            final(env)@ == claimed(old(env)@, id, data@),
            outcome is Err ==> final(env)@ == old(env)@,
            old(env)@.wf() ==> final(env)@.wf(),
    {
        let item = env.find_item(id);
        let outcome = check_claim(&item, env.timestamp(), data);
        if let Some(w) = item {
            if outcome.is_ok() {
                delete_item(env, id);
                let custody = env.current_contract_address();
                move_token(env, &w.token, &custody, &w.to, w.amount);
            }
        }
        proof {
            if old(env)@.wf() {
                lemma_settling_keeps_wf(old(env)@, id, data@);
            }
        }
        outcome
    }

    /// The record of an escrow, if it is still stored. The read counts as
    /// a hit and extends the record's liveness.
    pub fn get_event(env: &mut Ledger, id: u64) -> (item: Option<DataItem>)
        ensures
            item == old(env)@.item(id),
            final(env)@ == old(env)@.touched(id),
            old(env)@.wf() ==> final(env)@.wf(),
    {
        proof {
            if old(env)@.wf() {
                lemma_settling_keeps_wf(old(env)@, id, Seq::empty());
            }
        }
        read_item(env, id)
    }
}

} // verus!
