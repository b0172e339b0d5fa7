//! What holds of the escrow over any sequence of calls.

use crate::contract::{
    claim_outcome, claimed, created, expired, lemma_created_keeps_wf, lemma_settling_keeps_wf,
    next_id, refund_outcome, refunded,
};
use crate::error::Error;
use crate::hashlock::{opens, sha256_of};
use crate::storage::{
    fresh, remaining, DataItem, LedgerView, BALANCE_LIFETIME_THRESHOLD, DATA_BYTES_LENGTH,
};
use crate::u256::be_value;
use soroban_sdk::Address;
use vstd::prelude::*;

verus! {

/// One call on the escrow, or one change of its surroundings.
pub enum Call {
    /// An escrow is created for the record.
    Create { item: DataItem },
    /// The escrow under `id` is claimed with the candidate `data`.
    Claim { id: u64, data: Seq<u8> },
    /// A refund is asked for the escrow under `id`.
    Refund { id: u64 },
    /// The record under `id` is read.
    Get { id: u64 },
    /// The clock moves to `timestamp`.
    SetTimestamp { timestamp: u64 },
    /// The ledger number moves to `sequence`.
    SetSequenceNumber { sequence: u32 },
    /// The waiting transfers are handed to the gateway.
    TakeTransfers,
}

/// The state after one call. A create on an exhausted counter cannot take
/// place and leaves the state as it is.
pub open spec fn step(l: LedgerView, call: Call) -> LedgerView {
    match call {
        Call::Create { item } => if l.counter < u64::MAX {
            created(l, item)
        } else {
            l
        },
        Call::Claim { id, data } => claimed(l, id, data),
        Call::Refund { id } => refunded(l, id),
        Call::Get { id } => l.touched(id),
        Call::SetTimestamp { timestamp } => LedgerView { timestamp, ..l },
        Call::SetSequenceNumber { sequence } => LedgerView { sequence, ..l },
        Call::TakeTransfers => LedgerView { transfers: Seq::empty(), ..l },
    }
}

/// The state after the calls were made one after the other.
pub open spec fn run(l: LedgerView, calls: Seq<Call>) -> LedgerView
    decreases calls.len(),
{
    if calls.len() == 0 {
        l
    } else {
        step(run(l, calls.drop_last()), calls.last())
    }
}

/// The identifiers that the creates among the calls returned, in order.
pub open spec fn created_ids(l: LedgerView, calls: Seq<Call>) -> Seq<u64>
    decreases calls.len(),
{
    if calls.len() == 0 {
        Seq::empty()
    } else {
        let earlier = created_ids(l, calls.drop_last());
        let before = run(l, calls.drop_last());
        if calls.last() is Create && before.counter < u64::MAX {
            earlier.push(next_id(before))
        } else {
            earlier
        }
    }
}

/// Whether `id` was issued and its record is gone: the escrow under it was
/// claimed or refunded.
pub open spec fn settled(l: LedgerView, id: u64) -> bool {
    1 <= id <= l.counter && !l.has(id)
}

/// Every call keeps the records under issued identifiers.
pub proof fn lemma_step_keeps_wf(l: LedgerView, call: Call)
    requires
        l.wf(),
    ensures
        step(l, call).wf(),
{
    match call {
        Call::Create { item } => if l.counter < u64::MAX {
            lemma_created_keeps_wf(l, item);
        },
        Call::Claim { id, data } => lemma_settling_keeps_wf(l, id, data),
        Call::Refund { id } => lemma_settling_keeps_wf(l, id, Seq::empty()),
        Call::Get { id } => lemma_settling_keeps_wf(l, id, Seq::empty()),
        _ => {
            let after = step(l, call);
            assert forall|id: u64| #[trigger] after.has(id) implies 1 <= id <= after.counter by {
                assert(l.has(id));
            }
        },
    }
}

/// Any sequence of calls keeps the records under issued identifiers.
pub proof fn lemma_run_keeps_wf(l: LedgerView, calls: Seq<Call>)
    requires
        l.wf(),
    ensures
        run(l, calls).wf(),
    decreases calls.len(),
{
    if calls.len() > 0 {
        lemma_run_keeps_wf(l, calls.drop_last());
        lemma_step_keeps_wf(run(l, calls.drop_last()), calls.last());
    }
}

/// Under an identifier that no create has returned there is no record: a
/// read finds nothing, and a claim and a refund report `NotFound` and
/// change nothing.
pub proof fn lemma_unissued_not_found(l: LedgerView, id: u64, data: Seq<u8>)
    requires
        l.wf(),
        id == 0 || id > l.counter,
    ensures
        l.item(id) is None,
        l.touched(id) == l,
        claim_outcome(l.item(id), l.timestamp, data) == Err::<bool, Error>(Error::NotFound),
        refund_outcome(l.item(id), l.timestamp) == Err::<bool, Error>(Error::NotFound),
        claimed(l, id, data) == l,
        refunded(l, id) == l,
{
}

/// From fresh surroundings on, an identifier that no create has returned
/// holds no record, whatever calls were made: a read finds nothing, and a
/// claim and a refund report `NotFound`.
pub proof fn lemma_never_created_not_found(
    contract: Address,
    calls: Seq<Call>,
    id: u64,
    data: Seq<u8>,
)
    requires
        !created_ids(fresh(contract), calls).contains(id),
    ensures
        run(fresh(contract), calls).item(id) is None,
        claim_outcome(
            run(fresh(contract), calls).item(id),
            run(fresh(contract), calls).timestamp,
            data,
        ) == Err::<bool, Error>(Error::NotFound),
        refund_outcome(run(fresh(contract), calls).item(id), run(fresh(contract), calls).timestamp)
            == Err::<bool, Error>(Error::NotFound),
{
    let start = fresh(contract);
    let end = run(start, calls);
    let ids = created_ids(start, calls);
    lemma_run_keeps_wf(start, calls);
    lemma_ids_count_up(start, calls);
    if 1 <= id <= end.counter {
        assert(ids[id - 1] == id);
    }
    lemma_unissued_not_found(end, id, data);
}

/// A successful claim and a successful refund settle the escrow.
pub proof fn lemma_success_settles(l: LedgerView, id: u64, data: Seq<u8>)
    requires
        l.wf(),
    ensures
        claim_outcome(l.item(id), l.timestamp, data) is Ok ==> settled(claimed(l, id, data), id),
        refund_outcome(l.item(id), l.timestamp) is Ok ==> settled(refunded(l, id), id),
{
    if l.has(id) {
    }
}

/// No call brings a settled escrow back.
pub proof fn lemma_step_keeps_settled(l: LedgerView, id: u64, call: Call)
    requires
        settled(l, id),
    ensures
        settled(step(l, call), id),
{
}

/// Once an escrow is settled, every later claim and refund on it reports
/// `NotFound`, whatever calls were made in between.
pub proof fn lemma_settled_stays_settled(
    l: LedgerView,
    id: u64,
    calls: Seq<Call>,
    data: Seq<u8>,
)
    requires
        settled(l, id),
    ensures
        settled(run(l, calls), id),
        claim_outcome(run(l, calls).item(id), run(l, calls).timestamp, data) == Err::<
            bool,
            Error,
        >(Error::NotFound),
        refund_outcome(run(l, calls).item(id), run(l, calls).timestamp) == Err::<bool, Error>(
            Error::NotFound,
        ),
    decreases calls.len(),
{
    if calls.len() > 0 {
        lemma_settled_stays_settled(l, id, calls.drop_last(), data);
        lemma_step_keeps_settled(run(l, calls.drop_last()), id, calls.last());
    }
}

/// After a successful claim or refund on an escrow, every later claim and
/// refund on it reports `NotFound`, whatever calls were made in between.
pub proof fn lemma_claimed_or_refunded_once(
    l: LedgerView,
    id: u64,
    data: Seq<u8>,
    calls: Seq<Call>,
    later: Seq<u8>,
)
    requires
        l.wf(),
    ensures
        claim_outcome(l.item(id), l.timestamp, data) is Ok ==> {
            let end = run(claimed(l, id, data), calls);
            &&& claim_outcome(end.item(id), end.timestamp, later) == Err::<bool, Error>(
                Error::NotFound,
            )
            &&& refund_outcome(end.item(id), end.timestamp) == Err::<bool, Error>(
                Error::NotFound,
            )
        },
        refund_outcome(l.item(id), l.timestamp) is Ok ==> {
            let end = run(refunded(l, id), calls);
            &&& claim_outcome(end.item(id), end.timestamp, later) == Err::<bool, Error>(
                Error::NotFound,
            )
            &&& refund_outcome(end.item(id), end.timestamp) == Err::<bool, Error>(
                Error::NotFound,
            )
        },
{
    lemma_success_settles(l, id, data);
    if claim_outcome(l.item(id), l.timestamp, data) is Ok {
        lemma_settled_stays_settled(claimed(l, id, data), id, calls, later);
    }
    if refund_outcome(l.item(id), l.timestamp) is Ok {
        lemma_settled_stays_settled(refunded(l, id), id, calls, later);
    }
}

/// A record comes into the store by a create only, and under the
/// identifier that the create returns.
pub proof fn lemma_only_create_adds(l: LedgerView, call: Call, id: u64)
    requires
        !l.has(id),
        step(l, call).has(id),
    ensures
        call is Create,
        l.counter < u64::MAX,
        id == next_id(l),
{
}

/// A record leaves the store by a successful claim or refund on its
/// identifier only.
pub proof fn lemma_only_success_removes(l: LedgerView, call: Call, id: u64)
    requires
        l.has(id),
        !step(l, call).has(id),
    ensures
        match call {
            Call::Claim { id: claimed_id, data } => claimed_id == id && claim_outcome(
                l.item(id),
                l.timestamp,
                data,
            ) is Ok,
            Call::Refund { id: refunded_id } => refunded_id == id && refund_outcome(
                l.item(id),
                l.timestamp,
            ) is Ok,
            _ => false,
        },
{
}

/// While a record is stored no call changes it: only the end of its
/// liveness window moves.
pub proof fn lemma_step_keeps_record(l: LedgerView, call: Call, id: u64)
    requires
        l.wf(),
        l.has(id),
        step(l, call).has(id),
    ensures
        step(l, call).item(id) == l.item(id),
{
}

/// A record that is stored before and after a sequence of calls is the
/// record that was stored at first.
pub proof fn lemma_record_never_changes(l: LedgerView, calls: Seq<Call>, id: u64)
    requires
        l.wf(),
        l.has(id),
        run(l, calls).has(id),
    ensures
        run(l, calls).item(id) == l.item(id),
    decreases calls.len(),
{
    if calls.len() > 0 {
        let before = run(l, calls.drop_last());
        lemma_run_keeps_wf(l, calls.drop_last());
        if before.has(id) {
            lemma_record_never_changes(l, calls.drop_last(), id);
            lemma_step_keeps_record(before, calls.last(), id);
        } else {
            lemma_ids_count_up(l, calls.drop_last());
            lemma_step_keeps_settled(before, id, calls.last());
        }
    }
}

/// A claim succeeds exactly when the record exists, its deadline has not
/// passed, the candidate has the required length and its digest is the
/// commitment. A missing record is reported first; with the record there,
/// a passed deadline is reported before the candidate is looked at, and a
/// candidate of the wrong length or with the wrong digest is reported as
/// `InvalidSignature`.
pub proof fn lemma_claim_succeeds_iff(l: LedgerView, id: u64, data: Seq<u8>)
    ensures
        claim_outcome(l.item(id), l.timestamp, data) == Ok::<bool, Error>(true) <==> {
            &&& l.has(id)
            &&& !expired(l.entries[id].item.expired_at, l.timestamp)
            &&& data.len() == DATA_BYTES_LENGTH
            &&& be_value(sha256_of(data)) == l.entries[id].item.hash@
        },
        claim_outcome(l.item(id), l.timestamp, data) is Ok ==> claim_outcome(
            l.item(id),
            l.timestamp,
            data,
        ) == Ok::<bool, Error>(true),
        !l.has(id) ==> claim_outcome(l.item(id), l.timestamp, data) == Err::<bool, Error>(
            Error::NotFound,
        ),
        l.has(id) && expired(l.entries[id].item.expired_at, l.timestamp) ==> claim_outcome(
            l.item(id),
            l.timestamp,
            data,
        ) == Err::<bool, Error>(Error::AlreadyExpired),
        l.has(id) && !expired(l.entries[id].item.expired_at, l.timestamp) && data.len()
            != DATA_BYTES_LENGTH ==> claim_outcome(l.item(id), l.timestamp, data) == Err::<
            bool,
            Error,
        >(Error::InvalidSignature),
        l.has(id) && !expired(l.entries[id].item.expired_at, l.timestamp) && be_value(
            sha256_of(data),
        ) != l.entries[id].item.hash@ ==> claim_outcome(l.item(id), l.timestamp, data) == Err::<
            bool,
            Error,
        >(Error::InvalidSignature),
{
}

/// A refund succeeds exactly when the record exists and its deadline has
/// passed.
pub proof fn lemma_refund_succeeds_iff(l: LedgerView, id: u64)
    ensures
        refund_outcome(l.item(id), l.timestamp) == Ok::<bool, Error>(true) <==> l.has(id)
            && expired(l.entries[id].item.expired_at, l.timestamp),
        !l.has(id) ==> refund_outcome(l.item(id), l.timestamp) == Err::<bool, Error>(
            Error::NotFound,
        ),
        l.has(id) && !expired(l.entries[id].item.expired_at, l.timestamp) ==> refund_outcome(
            l.item(id),
            l.timestamp,
        ) == Err::<bool, Error>(Error::NotExpiredYet),
{
}

/// At the deadline itself a claim with the secret still succeeds and a
/// refund is refused with `NotExpiredYet`; one moment later the refund
/// succeeds and the claim is refused with `AlreadyExpired`.
pub proof fn lemma_deadline_boundary(item: DataItem, now: u64, data: Seq<u8>)
    ensures
        item.expired_at == now && opens(item.hash, data) ==> claim_outcome(
            Some(item),
            now,
            data,
        ) == Ok::<bool, Error>(true),
        item.expired_at == now ==> refund_outcome(Some(item), now) == Err::<bool, Error>(
            Error::NotExpiredYet,
        ),
        item.expired_at == now - 1 ==> refund_outcome(Some(item), now) == Ok::<bool, Error>(
            true,
        ),
        item.expired_at == now - 1 ==> claim_outcome(Some(item), now, data) == Err::<
            bool,
            Error,
        >(Error::AlreadyExpired),
{
}

/// The creates of any sequence of calls return consecutive identifiers,
/// each one more than the one before, whatever was claimed, refunded or
/// read in between; from a fresh ledger they are 1, 2, 3 and so on.
pub proof fn lemma_ids_count_up(l: LedgerView, calls: Seq<Call>)
    ensures
        run(l, calls).counter == l.counter + created_ids(l, calls).len(),
        created_ids(l, calls).len() <= calls.len(),
        forall|k: int|
            0 <= k < created_ids(l, calls).len() ==> #[trigger] created_ids(l, calls)[k]
                == l.counter + 1 + k,
    decreases calls.len(),
{
    if calls.len() > 0 {
        lemma_ids_count_up(l, calls.drop_last());
    }
}

/// No identifier is returned twice, and a later create returns a larger
/// one.
pub proof fn lemma_ids_increase(l: LedgerView, calls: Seq<Call>, i: int, j: int)
    requires
        0 <= i < j < created_ids(l, calls).len(),
    ensures
        created_ids(l, calls)[i] < created_ids(l, calls)[j],
{
    lemma_ids_count_up(l, calls);
}

/// A hit leaves the record at least the threshold of liveness, so that a
/// record in use does not lapse.
pub proof fn lemma_hit_keeps_alive(l: LedgerView, id: u64, item: DataItem)
    ensures
        l.has(id) ==> remaining(l.touched(id).entries[id].live_until, l.sequence)
            >= BALANCE_LIFETIME_THRESHOLD,
        l.has(id) ==> l.touched(id).item(id) == l.item(id),
        remaining(l.stored(id, item).entries[id].live_until, l.sequence)
            >= BALANCE_LIFETIME_THRESHOLD,
{
}

} // verus!
