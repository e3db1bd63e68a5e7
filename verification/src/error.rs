use vstd::prelude::*;

verus! {

/// Why an operation on the store was refused. A refused operation leaves the
/// store exactly as it found it.
#[derive(Debug, PartialEq, Eq)]
pub enum ReceiveError {
    /// The caller has nothing the operation could work on; the text says what
    /// was missing. Only the strict operations report this.
    User(String),
    /// The payment sent along does not exceed the minimum.
    InsufficientPayment,
    /// The payload's bytes are not an encoding of the expected parameter.
    MalformedPayload,
    /// The sub-task position lies beyond the last sub-task of the main task.
    IndexOutOfRange,
}

} // verus!
