//! What every worker loop decides before each turn, from its two signals.

use vstd::prelude::*;

verus! {

/// What a worker does on this pass of its loop.
#[derive(Debug, Clone, Copy, PartialEq, Eq, Structural)]
pub enum Control {
    /// The stop signal is set: leave the loop.
    Stop,
    /// The pause signal is set: wait, then look again.
    Pause,
    /// Do one turn of work.
    Run,
}

/// The decision from the stop signal and the optional pause signal.
pub open spec fn spec_control(stop: bool, pause: Option<bool>) -> Control {
    if stop {
        Control::Stop
    } else if pause == Some(true) {
        Control::Pause
    } else {
        Control::Run
    }
}

/// Decides what a worker does, given the stop signal and, when the stage has
/// one, the pause signal.
pub fn control(stop: bool, pause: Option<bool>) -> (c: Control)
    ensures
        c == spec_control(stop, pause),
{
    if stop {
        Control::Stop
    } else {
        match pause {
            Some(true) => Control::Pause,
            _ => Control::Run,
        }
    }
}

/// The stop signal wins over the pause signal, and a stage without a pause
/// signal never pauses.
pub proof fn lemma_stop_wins(pause: Option<bool>)
    ensures
        spec_control(true, pause) == Control::Stop,
        spec_control(false, None) == Control::Run,
        spec_control(false, pause) == Control::Pause <==> pause == Some(true),
{
}

} // verus!
