//! The loader channel's consuming side.  Worker tasks post their results on
//! a `std::sync::mpsc` channel; between frames the interaction thread drains
//! whatever has arrived and applies each message in arrival order.  No
//! request is ever cancelled: a stale result is applied like any other.

use vstd::prelude::*;

use crate::state::App;
use crate::state::LoaderMsg;
use std::sync::mpsc::Receiver;

verus! {

#[verifier::external_type_specification]
#[verifier::external_body]
#[verifier::reject_recursive_types(T)]
pub struct ExReceiver<T>(Receiver<T>);

/// Relies on `std::sync::mpsc::Receiver::try_iter`: hands over the queued
/// messages in arrival order, without blocking, stopping at the first gap.
/// What arrives depends on the workers, so nothing is promised of the
/// values.
#[verifier::external_body]
fn take_pending(rx: &Receiver<LoaderMsg>) -> (r: Vec<LoaderMsg>) {
    rx.try_iter().collect()
}

/// Drains every queued loader message and applies each in arrival order.
/// Whatever arrived, the state stays well formed, and no loader message
/// moves the modal, the picker path or the search input.
pub fn drain(app: &mut App, rx: &Receiver<LoaderMsg>)
    requires
        old(app).wf(),
    ensures
        final(app).wf(),
        final(app).modal == old(app).modal,
        final(app).picker_path == old(app).picker_path,
        final(app).search_input == old(app).search_input,
{
    let mut msgs = take_pending(rx);
    while msgs.len() > 0
        invariant
            app.wf(),
            app.modal == old(app).modal,
            app.picker_path == old(app).picker_path,
            app.search_input == old(app).search_input,
        decreases msgs@.len(),
    {
        let msg = msgs.remove(0);
        app.apply_message(msg);
    }
}

} // verus!
