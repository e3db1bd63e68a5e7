use crate::error::ReceiveError;
use concordium_std::Amount;
use vstd::prelude::*;

verus! {

/// One CCD, counted in micro CCD: a payment has to exceed it to buy a task.
pub const MIN_PAYMENT: u64 = 1_000_000;

/// Whether a payment of `payment` micro CCD buys a task.
pub open spec fn payment_suffices(payment: u64) -> bool {
    payment > MIN_PAYMENT
}

/// Calls `Amount::from_ccd` and reads the amount back with
/// `Amount::micro_ccd`. The crate multiplies by one million without a check,
/// so the contract leaves out what would overflow, and says that the product
/// comes back.
#[verifier::external_body]
fn micro_ccd_of_ccd(ccd: u64) -> (micro_ccd: u64)
    requires
        ccd * 1_000_000 <= u64::MAX,
    ensures
        micro_ccd == ccd * 1_000_000,
{
    Amount::from_ccd(ccd).micro_ccd()
}

/// The payment, in micro CCD, that a task's price has to exceed.
pub fn min_payment() -> (threshold: u64)
    ensures
        threshold == MIN_PAYMENT,
{
    micro_ccd_of_ccd(1)
}

/// Accepts a payment of `payment` micro CCD only if it exceeds the minimum.
pub fn check_payment(payment: u64) -> (checked: Result<(), ReceiveError>)
    ensures
        payment_suffices(payment) ==> checked == Ok::<(), ReceiveError>(()),
        !payment_suffices(payment) ==> checked == Err::<(), ReceiveError>(
            ReceiveError::InsufficientPayment,
        ),
{
    if payment > min_payment() {
        Ok(())
    } else {
        Err(ReceiveError::InsufficientPayment)
    }
}

} // verus!
