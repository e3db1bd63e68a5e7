use concordium_std::Address;
use vstd::prelude::*;

verus! {

/// The chain's address type: either an account or a contract instance. The
/// store treats it as an opaque identity and only ever compares two of them.
#[verifier::external_type_specification]
#[verifier::external_body]
pub struct ExAddress(Address);

/// Calls `PartialEq::eq` of `concordium_std::Address`, which answers true
/// for two accounts with the same bytes, for two contracts with the same
/// index and subindex, and false otherwise. The contract says that it is true
/// exactly for equal addresses.
#[verifier::external_body]
pub(crate) fn same_address(a: &Address, b: &Address) -> (same: bool)
    ensures
        same == (*a == *b),
{
    a == b
}

} // verus!
