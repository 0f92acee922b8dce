use std::sync::mpsc::Receiver;
use vstd::prelude::*;

verus! {

#[verifier::external_type_specification]
#[verifier::external_body]
#[verifier::reject_recursive_types(T)]
pub struct ExReceiver<T>(std::sync::mpsc::Receiver<T>);

/// Calls `std::sync::mpsc::Receiver::try_iter` and collects what it yields:
/// every value that is waiting in the channel now, in the order sent,
/// without blocking. What has arrived depends on the threads that send, so
/// nothing is claimed of the result.
#[verifier::external_body]
pub(crate) fn receive_waiting<T>(receiver: &Receiver<T>) -> (r: Vec<T>) {
    receiver.try_iter().collect()
}

} // verus!
