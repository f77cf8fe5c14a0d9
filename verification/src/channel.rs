use vstd::prelude::*;

use crossbeam::channel::Sender;

verus! {

#[verifier::external_type_specification]
#[verifier::external_body]
#[verifier::reject_recursive_types(T)]
pub struct ExSender<T>(Sender<T>);

/// Relies on crossbeam's channel `Sender::send`: it hands the value to the
/// channel and reports whether a receiver was still connected. Whether the
/// value arrives depends on the receiving side, so nothing is promised of
/// the outcome.
#[verifier::external_body]
pub(crate) fn chan_send<T>(s: &Sender<T>, v: T) -> bool {
    s.send(v).is_ok()
}

} // verus!
