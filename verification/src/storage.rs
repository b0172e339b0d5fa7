//! The escrow store: records keyed by identifier, each with a liveness
//! window that every hit extends, and the counter that issues identifiers.

use crate::address::clone_address;
use crate::u256::U256;
use soroban_sdk::Address;
use std::collections::HashMap;
use vstd::prelude::*;

verus! {

broadcast use vstd::std_specs::hash::group_hash_axioms;

/// How many ledgers close in one day: the unit in which liveness is counted.
pub const DAY_IN_LEDGERS: u32 = 17280;

/// The liveness that a hit on an escrow record extends it to: 30 days.
pub const BALANCE_BUMP_AMOUNT: u32 = 30 * DAY_IN_LEDGERS;

/// A record is extended only once less than this much liveness remains:
/// one day under the bump.
pub const BALANCE_LIFETIME_THRESHOLD: u32 = BALANCE_BUMP_AMOUNT - DAY_IN_LEDGERS;

/// The length that a candidate secret must have, in bytes.
pub const DATA_BYTES_LENGTH: u32 = 112;

/// One escrow: who deposited, who may claim, what is locked and until when.
#[derive(Debug)]
pub struct DataItem {
    /// The depositor, to whom the value returns after the deadline.
    pub from: Address,
    /// The beneficiary, who may claim the value with the secret.
    pub to: Address,
    /// The asset that is locked.
    pub token: Address,
    /// The deadline: the last moment at which a claim is still accepted.
    pub expired_at: u64,
    /// The commitment: the digest of the secret, read as a number.
    pub hash: U256,
    /// How much of the asset is locked.
    pub amount: i128,
}

impl Clone for DataItem {
    fn clone(&self) -> (copy: DataItem)
        ensures
            copy == *self,
    {
        DataItem {
            from: clone_address(&self.from),
            to: clone_address(&self.to),
            token: clone_address(&self.token),
            expired_at: self.expired_at,
            hash: self.hash,
            amount: self.amount,
        }
    }
}

/// A movement of value that the escrow asks the transfer gateway to make.
#[derive(Debug)]
pub struct Transfer {
    /// The asset to move.
    pub token: Address,
    /// The account that gives.
    pub from: Address,
    /// The account that receives.
    pub to: Address,
    /// How much is moved.
    pub amount: i128,
}

/// A stored record together with the last ledger at which it is still live.
#[derive(Debug)]
pub struct Entry {
    /// The record.
    pub item: DataItem,
    /// The last ledger of the record's liveness window.
    pub live_until: u64,
}

/// How many ledgers of liveness are left at ledger `sequence` to a record
/// that lives until `live_until`.
pub open spec fn remaining(live_until: u64, sequence: u32) -> nat {
    if live_until >= sequence {
        (live_until - sequence) as nat
    } else {
        0
    }
}

/// The end of a record's liveness window after a hit at ledger `sequence`:
/// moved out to the full bump when less than the threshold remained, and
/// left alone otherwise.
pub open spec fn extended(live_until: u64, sequence: u32) -> u64 {
    if remaining(live_until, sequence) < BALANCE_LIFETIME_THRESHOLD {
        (sequence + BALANCE_BUMP_AMOUNT) as u64
    } else {
        live_until
    }
}

/// The identifier issued last, where `last` is what the counter holds:
/// 0 while none was issued.
pub open spec fn issued(last: Option<u64>) -> nat {
    match last {
        Some(count) => count as nat,
        None => 0,
    }
}

/// What the escrow reads and writes of its surroundings, as plain data.
pub struct LedgerView {
    /// The account under which the escrow holds value in custody.
    pub contract: Address,
    /// The current time.
    pub timestamp: u64,
    /// The number of the current ledger.
    pub sequence: u32,
    /// The identifier issued last, 0 while none was issued.
    pub counter: nat,
    /// The stored records by identifier.
    pub entries: Map<u64, Entry>,
    /// The transfers asked of the gateway so far, oldest first.
    pub transfers: Seq<Transfer>,
}

impl LedgerView {
    /// Whether a record is stored under `id`.
    pub open spec fn has(self, id: u64) -> bool {
        self.entries.contains_key(id)
    }

    /// The record stored under `id`, if there is one.
    pub open spec fn item(self, id: u64) -> Option<DataItem> {
        if self.has(id) {
            Some(self.entries[id].item)
        } else {
            None
        }
    }

    /// The state after a read of `id`: a hit extends the record's liveness,
    /// a miss changes nothing.
    pub open spec fn touched(self, id: u64) -> LedgerView {
        if self.has(id) {
            LedgerView {
                entries: self.entries.insert(
                    id,
                    Entry {
                        item: self.entries[id].item,
                        live_until: extended(self.entries[id].live_until, self.sequence),
                    },
                ),
                ..self
            }
        } else {
            self
        }
    }

    /// The state after `item` was written under `id`. A new record starts
    /// with no liveness and is extended at once; one that replaces another
    /// inherits its window.
    pub open spec fn stored(self, id: u64, item: DataItem) -> LedgerView {
        let before = if self.has(id) {
            self.entries[id].live_until
        } else {
            self.sequence as u64
        };
        LedgerView {
            entries: self.entries.insert(
                id,
                Entry { item, live_until: extended(before, self.sequence) },
            ),
            ..self
        }
    }

    /// The state after the record under `id` was removed, if there was one.
    pub open spec fn deleted(self, id: u64) -> LedgerView {
        LedgerView { entries: self.entries.remove(id), ..self }
    }

    /// The state after one more identifier was issued.
    pub open spec fn counted(self) -> LedgerView {
        LedgerView { counter: self.counter + 1, ..self }
    }

    /// The state after `transfer` was asked of the gateway.
    pub open spec fn moved(self, transfer: Transfer) -> LedgerView {
        LedgerView { transfers: self.transfers.push(transfer), ..self }
    }

    /// Every stored record lies under an identifier that was issued.
    pub open spec fn wf(self) -> bool {
        forall|id: u64| #[trigger] self.has(id) ==> 1 <= id <= self.counter
    }
}

/// The state of fresh surroundings for an escrow that holds value under
/// `contract`: time and ledger number 0, no identifier issued, nothing
/// stored and no transfer waiting.
pub open spec fn fresh(contract: Address) -> LedgerView {
    LedgerView {
        contract,
        timestamp: 0,
        sequence: 0,
        counter: 0,
        entries: Map::empty(),
        transfers: Seq::empty(),
    }
}

/// The surroundings in which the escrow runs: the clock, the keyed store
/// with its liveness windows, the identifier counter, the custody account,
/// and the transfers that are waiting for the gateway.
pub struct Ledger {
    contract: Address,
    timestamp: u64,
    sequence: u32,
    counter: Option<u64>,
    entries: HashMap<u64, Entry>,
    transfers: Vec<Transfer>,
}

impl View for Ledger {
    type V = LedgerView;

    closed spec fn view(&self) -> LedgerView {
        LedgerView {
            contract: self.contract,
            timestamp: self.timestamp,
            sequence: self.sequence,
            counter: issued(self.counter),
            entries: self.entries@,
            transfers: self.transfers@,
        }
    }
}

/// The identifier that follows `last`, where `last` is what the counter
/// holds: 1 while none was issued.
pub fn next_count(last: Option<u64>) -> (count: u64)
    requires
        issued(last) < u64::MAX,
    ensures
        count == issued(last) + 1,
{
    let base: u64 = match last {
        Some(count) => count,
        None => 0,
    };
    base + 1
}

/// Reads the record stored under `id`. A hit extends the record's liveness;
/// a miss leaves everything as it was.
pub fn read_item(e: &mut Ledger, id: u64) -> (item: Option<DataItem>)
    ensures
        item == old(e)@.item(id),
        final(e)@ == old(e)@.touched(id),
{
    let sequence = e.sequence;
    match e.entries.remove(&id) {
        Some(entry) => {
            let item = entry.item.clone();
            let live_until = extend_ttl(entry.live_until, sequence);
            e.entries.insert(id, Entry { item: entry.item, live_until });
            assert(final(e)@.entries =~= old(e)@.touched(id).entries);
            Some(item)
        },
        None => {
            assert(final(e)@.entries =~= old(e)@.entries);
            None
        },
    }
}

/// The end of a liveness window after a hit at ledger `sequence`.
pub fn extend_ttl(live_until: u64, sequence: u32) -> (until: u64)
    ensures
        until == extended(live_until, sequence),
        remaining(until, sequence) >= BALANCE_LIFETIME_THRESHOLD,
{
    let left: u64 = if live_until >= sequence as u64 {
        live_until - sequence as u64
    } else {
        0
    };
    if left < BALANCE_LIFETIME_THRESHOLD as u64 {
        sequence as u64 + BALANCE_BUMP_AMOUNT as u64
    } else {
        live_until
    }
}

/// Writes `item` under `id` and extends the record's liveness.
pub fn set_item(e: &mut Ledger, id: u64, item: &DataItem)
    ensures
        final(e)@ == old(e)@.stored(id, *item),
{
    let sequence = e.sequence;
    let before: u64 = match e.entries.get(&id) {
        Some(entry) => entry.live_until,
        None => sequence as u64,
    };
    let live_until = extend_ttl(before, sequence);
    e.entries.insert(id, Entry { item: item.clone(), live_until });
}

/// Removes the record stored under `id`; does nothing if there is none.
pub fn delete_item(e: &mut Ledger, id: u64)
    ensures
        final(e)@ == old(e)@.deleted(id),
{
    e.entries.remove(&id);
}

/// Issues the next identifier: one more than the last, and 1 the first
/// time. The counter keeps it, so that no identifier is issued twice.
pub fn get_max_count(e: &mut Ledger) -> (count: u64)
    requires
        old(e)@.counter < u64::MAX,
    ensures
        count == old(e)@.counter + 1,
        final(e)@ == old(e)@.counted(),
{
    let count = next_count(e.counter);
    e.counter = Some(count);
    count
}

impl Ledger {
    /// Fresh surroundings for an escrow that holds value under `contract`:
    /// time and ledger number 0, no identifier issued, nothing stored and
    /// no transfer waiting.
    pub fn new(contract: Address) -> (ledger: Ledger)
        ensures
            ledger@ == fresh(contract),
            ledger@.wf(),
    {
        Ledger {
            contract,
            timestamp: 0,
            sequence: 0,
            counter: None,
            entries: HashMap::new(),
            transfers: Vec::new(),
        }
    }

    /// The current time.
    pub fn timestamp(&self) -> (now: u64)
        ensures
            now == self@.timestamp,
    {
        self.timestamp
    }

    /// Sets the current time.
    pub fn set_timestamp(&mut self, timestamp: u64)
        ensures
            final(self)@ == (LedgerView { timestamp, ..old(self)@ }),
    {
        self.timestamp = timestamp;
    }

    /// The number of the current ledger.
    pub fn sequence_number(&self) -> (sequence: u32)
        ensures
            sequence == self@.sequence,
    {
        self.sequence
    }

    /// Sets the number of the current ledger.
    pub fn set_sequence_number(&mut self, sequence: u32)
        ensures
            final(self)@ == (LedgerView { sequence, ..old(self)@ }),
    {
        self.sequence = sequence;
    }

    /// The account under which the escrow holds value in custody.
    pub fn current_contract_address(&self) -> (contract: Address)
        ensures
            contract == self@.contract,
    {
        clone_address(&self.contract)
    }

    /// The identifier issued last, 0 while none was issued.
    pub fn last_count(&self) -> (count: u64)
        ensures
            count == self@.counter,
    {
        match self.counter {
            Some(count) => count,
            None => 0,
        }
    }

    /// The record stored under `id`, if there is one. Unlike [`read_item`]
    /// this is no hit: the record's liveness stays as it is.
    pub fn find_item(&self, id: u64) -> (item: Option<DataItem>)
        ensures
            item == self@.item(id),
    {
        match self.entries.get(&id) {
            Some(entry) => Some(entry.item.clone()),
            None => None,
        }
    }

    /// The last ledger at which the record under `id` is still live, if
    /// there is such a record.
    pub fn live_until(&self, id: u64) -> (until: Option<u64>)
        ensures
            until == if self@.has(id) {
                Some(self@.entries[id].live_until)
            } else {
                None
            },
    {
        match self.entries.get(&id) {
            Some(entry) => Some(entry.live_until),
            None => None,
        }
    }

    /// Puts `transfer` behind the transfers that wait for the gateway.
    pub fn request(&mut self, transfer: Transfer)
        ensures
            final(self)@ == old(self)@.moved(transfer),
    {
        self.transfers.push(transfer);
    }

    /// Hands out the transfers that wait for the gateway, oldest first,
    /// and leaves none waiting.
    pub fn take_transfers(&mut self) -> (transfers: Vec<Transfer>)
        ensures
            transfers@ == old(self)@.transfers,
            final(self)@ == (LedgerView { transfers: Seq::empty(), ..old(self)@ }),
    {
        let mut taken: Vec<Transfer> = Vec::new();
        std::mem::swap(&mut taken, &mut self.transfers);
        taken
    }
}

} // verus!
