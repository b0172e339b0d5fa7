use htlc::storage::{
    delete_item, extend_ttl, get_max_count, next_count, read_item, set_item,
    BALANCE_BUMP_AMOUNT, BALANCE_LIFETIME_THRESHOLD, DATA_BYTES_LENGTH, DAY_IN_LEDGERS,
};
use htlc::{DataItem, Ledger, U256};
use soroban_sdk::{Address, Env};

const FROM_USER: &str = "GAAQCAIBAEAQCAIBAEAQCAIBAEAQCAIBAEAQCAIBAEAQCAIBAEAQDZ7H";
const TO_USER: &str = "GABAEAQCAIBAEAQCAIBAEAQCAIBAEAQCAIBAEAQCAIBAEAQCAIBAEJXA";
const CONTRACT: &str = "CAAQCAIBAEAQCAIBAEAQCAIBAEAQCAIBAEAQCAIBAEAQCAIBAEAQC526";
const TOKEN: &str = "CABAEAQCAIBAEAQCAIBAEAQCAIBAEAQCAIBAEAQCAIBAEAQCAIBAFNSZ";

fn ledger(env: &Env) -> Ledger {
    Ledger::new(Address::from_str(env, CONTRACT))
}

fn item(env: &Env, amount: i128, expired_at: u64) -> DataItem {
    DataItem {
        from: Address::from_str(env, FROM_USER),
        to: Address::from_str(env, TO_USER),
        token: Address::from_str(env, TOKEN),
        expired_at,
        hash: U256::from_u128(42),
        amount,
    }
}

#[test]
fn liveness_constants() {
    assert_eq!(DAY_IN_LEDGERS, 17280);
    assert_eq!(BALANCE_BUMP_AMOUNT, 518400);
    assert_eq!(BALANCE_LIFETIME_THRESHOLD, 501120);
    assert_eq!(DATA_BYTES_LENGTH, 112);
}

#[test]
fn extend_ttl_moves_a_short_window_out_to_the_bump() {
    // nothing left, or the window already behind
    assert_eq!(extend_ttl(0, 0), 518400);
    assert_eq!(extend_ttl(1000, 1000), 519400);
    assert_eq!(extend_ttl(5, 1000), 519400);
    // one ledger under the threshold
    assert_eq!(extend_ttl(501119, 0), 518400);
    assert_eq!(extend_ttl(501219, 100), 518500);
    assert_eq!(extend_ttl(u32::MAX as u64, u32::MAX), u32::MAX as u64 + 518400);
}

#[test]
fn extend_ttl_leaves_a_long_window_alone() {
    // exactly the threshold left
    assert_eq!(extend_ttl(501120, 0), 501120);
    assert_eq!(extend_ttl(501220, 100), 501220);
    assert_eq!(extend_ttl(518400, 0), 518400);
    assert_eq!(extend_ttl(u64::MAX, 7), u64::MAX);
}

#[test]
fn next_count_starts_at_one() {
    assert_eq!(next_count(None), 1);
    assert_eq!(next_count(Some(0)), 1);
    assert_eq!(next_count(Some(1)), 2);
    assert_eq!(next_count(Some(41)), 42);
    assert_eq!(next_count(Some(u64::MAX - 1)), u64::MAX);
}

#[test]
fn get_max_count_counts_up() {
    let env = Env::default();
    let mut e = ledger(&env);
    assert_eq!(e.last_count(), 0);
    assert_eq!(get_max_count(&mut e), 1);
    assert_eq!(get_max_count(&mut e), 2);
    assert_eq!(get_max_count(&mut e), 3);
    assert_eq!(e.last_count(), 3);
}

#[test]
fn fresh_ledger_is_empty() {
    let env = Env::default();
    let mut e = ledger(&env);
    assert_eq!(e.timestamp(), 0);
    assert_eq!(e.sequence_number(), 0);
    assert_eq!(e.last_count(), 0);
    assert_eq!(e.current_contract_address(), Address::from_str(&env, CONTRACT));
    assert!(e.take_transfers().is_empty());
    assert!(e.find_item(1).is_none());
    assert!(read_item(&mut e, 1).is_none());
    assert_eq!(e.live_until(1), None);
}

#[test]
fn set_item_then_read_item() {
    let env = Env::default();
    let mut e = ledger(&env);
    set_item(&mut e, 7, &item(&env, 100, 1000));

    let got = read_item(&mut e, 7).unwrap();
    assert_eq!(got.from, Address::from_str(&env, FROM_USER));
    assert_eq!(got.to, Address::from_str(&env, TO_USER));
    assert_eq!(got.token, Address::from_str(&env, TOKEN));
    assert_eq!(got.expired_at, 1000);
    assert_eq!(got.hash, U256::from_u128(42));
    assert_eq!(got.amount, 100);
    assert!(read_item(&mut e, 6).is_none());
    assert!(read_item(&mut e, 8).is_none());
    // reading does not take the record away
    assert!(read_item(&mut e, 7).is_some());
    assert!(e.find_item(7).is_some());
}

#[test]
fn set_item_replaces_the_record_under_the_same_id() {
    let env = Env::default();
    let mut e = ledger(&env);
    set_item(&mut e, 7, &item(&env, 100, 1000));
    set_item(&mut e, 7, &item(&env, 5, 2000));
    set_item(&mut e, 8, &item(&env, 6, 3000));
    let got = read_item(&mut e, 7).unwrap();
    assert_eq!(got.amount, 5);
    assert_eq!(got.expired_at, 2000);
    assert_eq!(read_item(&mut e, 8).unwrap().amount, 6);
}

#[test]
fn delete_item_removes_and_is_idle_on_a_miss() {
    let env = Env::default();
    let mut e = ledger(&env);
    delete_item(&mut e, 7);
    set_item(&mut e, 7, &item(&env, 100, 1000));
    set_item(&mut e, 8, &item(&env, 100, 1000));
    delete_item(&mut e, 7);
    assert!(read_item(&mut e, 7).is_none());
    assert!(read_item(&mut e, 8).is_some());
    delete_item(&mut e, 7);
    assert!(read_item(&mut e, 7).is_none());
    assert!(read_item(&mut e, 8).is_some());
}

#[test]
fn a_write_starts_the_window_at_the_bump() {
    let env = Env::default();
    let mut e = ledger(&env);
    set_item(&mut e, 1, &item(&env, 100, 1000));
    assert_eq!(e.live_until(1), Some(518400));

    e.set_sequence_number(1000);
    set_item(&mut e, 2, &item(&env, 100, 1000));
    assert_eq!(e.live_until(2), Some(519400));
    assert_eq!(e.live_until(1), Some(518400));
    assert_eq!(e.live_until(3), None);
}

#[test]
fn a_hit_extends_the_window_only_under_the_threshold() {
    let env = Env::default();
    let mut e = ledger(&env);
    set_item(&mut e, 1, &item(&env, 100, 1000));

    // a day later exactly the threshold is left: nothing moves
    e.set_sequence_number(17280);
    assert!(read_item(&mut e, 1).is_some());
    assert_eq!(e.live_until(1), Some(518400));
    // one ledger more and the hit extends the window to the full bump
    e.set_sequence_number(17281);
    assert_eq!(e.find_item(1).unwrap().amount, 100);
    assert_eq!(e.live_until(1), Some(518400));
    assert!(read_item(&mut e, 1).is_some());
    assert_eq!(e.live_until(1), Some(17281 + 518400));
    // a miss extends nothing
    assert!(read_item(&mut e, 2).is_none());
    assert_eq!(e.live_until(1), Some(535681));
}

#[test]
fn a_rewrite_inherits_the_window() {
    let env = Env::default();
    let mut e = ledger(&env);
    set_item(&mut e, 1, &item(&env, 100, 1000));
    e.set_sequence_number(100);
    set_item(&mut e, 1, &item(&env, 200, 1000));
    assert_eq!(e.live_until(1), Some(518400));
    e.set_sequence_number(20000);
    set_item(&mut e, 1, &item(&env, 300, 1000));
    assert_eq!(e.live_until(1), Some(538400));
    assert_eq!(e.find_item(1).unwrap().amount, 300);
}

#[test]
fn a_record_outlives_its_window() {
    let env = Env::default();
    let mut e = ledger(&env);
    set_item(&mut e, 1, &item(&env, 100, 1000));
    e.set_sequence_number(600_000);
    assert_eq!(e.live_until(1), Some(518400));
    assert!(read_item(&mut e, 1).is_some());
    assert_eq!(e.live_until(1), Some(1_118_400));
}

#[test]
fn clock_and_ledger_number_can_be_set() {
    let env = Env::default();
    let mut e = ledger(&env);
    e.set_timestamp(10);
    e.set_sequence_number(3);
    assert_eq!(e.timestamp(), 10);
    assert_eq!(e.sequence_number(), 3);
    e.set_timestamp(u64::MAX);
    e.set_sequence_number(u32::MAX);
    assert_eq!(e.timestamp(), u64::MAX);
    assert_eq!(e.sequence_number(), u32::MAX);
    set_item(&mut e, 1, &item(&env, 100, 1000));
    assert_eq!(e.live_until(1), Some(u32::MAX as u64 + 518400));
}

#[test]
fn copies_of_a_record_carry_the_same_accounts() {
    let env = Env::default();
    let first = item(&env, 100, 1000);
    let copy = first.clone();
    assert_eq!(copy.from, first.from);
    assert_eq!(copy.to, first.to);
    assert_eq!(copy.token, first.token);
    assert_ne!(copy.from, copy.to);
    assert_eq!(copy.expired_at, 1000);
    assert_eq!(copy.hash, first.hash);
    assert_eq!(copy.amount, 100);
}
