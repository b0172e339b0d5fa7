//! Account references. The escrow never looks inside one: it only keeps
//! them and hands them on as the endpoints of a transfer.

use soroban_sdk::Address;
use vstd::prelude::*;

verus! {

/// `soroban_sdk::Address`, an account or contract on the ledger. Nothing is
/// known of its contents here.
#[verifier::external_type_specification]
#[verifier::external_body]
pub struct ExAddress(soroban_sdk::Address);

/// Calls `<soroban_sdk::Address as Clone>::clone`. Believed, not proved: the
/// copy refers to the same account as `address`.
#[verifier::external_body]
pub(crate) fn clone_address(address: &Address) -> (copy: Address)
    ensures
        copy == *address,
{
    address.clone()
}

} // verus!
