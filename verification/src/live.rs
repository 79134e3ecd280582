//! Live-stream filtering: what a per-sensor stream does with each bus
//! read, for the event-stream and the socket variant alike.

use vstd::prelude::*;
use crate::bus::RecvOutcome;
use crate::domain::SensorEntry;

verus! {

/// What the stream does after one bus read.
#[derive(Clone, Copy, Debug, PartialEq, Eq, Structural)]
pub enum LiveAction {
    /// Serialize and send this entry to the client.
    Emit(SensorEntry),
    /// Send nothing and read again: a foreign entry, a lag signal
    /// (clients silently resume), or nothing pending yet.
    Skip,
    /// The producer is gone: end the stream cleanly.
    End,
}

/// One turn of a live stream bound to `path_id`: only entries of that
/// sensor are emitted; a lag is silently resumed; a closed bus ends
/// the stream.
pub fn live_step(path_id: u128, r: &RecvOutcome) -> (a: LiveAction)
    ensures
        a == match *r {
            RecvOutcome::Entry(e) => if e.sensor_id == path_id {
                LiveAction::Emit(e)
            } else {
                LiveAction::Skip
            },
            RecvOutcome::Lagged(_) => LiveAction::Skip,
            RecvOutcome::Empty => LiveAction::Skip,
            RecvOutcome::Closed => LiveAction::End,
        },
        a matches LiveAction::Emit(e) ==> *r == RecvOutcome::Entry(e) && e.sensor_id == path_id,
{
    match *r {
        RecvOutcome::Entry(e) => {
            if e.sensor_id == path_id {
                LiveAction::Emit(e)
            } else {
                LiveAction::Skip
            }
        },
        RecvOutcome::Lagged(_) => LiveAction::Skip,
        RecvOutcome::Empty => LiveAction::Skip,
        RecvOutcome::Closed => LiveAction::End,
    }
}

/// Cross-sensor isolation: an entry of another sensor is never
/// emitted, whatever the read outcome was.
pub proof fn lemma_foreign_never_emitted(path_id: u128, r: RecvOutcome, a: LiveAction)
    requires
        a == match r {
            RecvOutcome::Entry(e) => if e.sensor_id == path_id {
                LiveAction::Emit(e)
            } else {
                LiveAction::Skip
            },
            RecvOutcome::Lagged(_) => LiveAction::Skip,
            RecvOutcome::Empty => LiveAction::Skip,
            RecvOutcome::Closed => LiveAction::End,
        },
    ensures
        forall|e: SensorEntry| a == LiveAction::Emit(e) ==> e.sensor_id == path_id,
{
}

} // verus!
