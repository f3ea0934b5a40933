//! The decisions of a transformer stage.
//!
//! A transformer runs a user routine (a coroutine) over batches that arrive on
//! its input channel. Each time the routine yields, it says what to do next:
//! emit a batch, finish, feed a batch back into its own input, or report an
//! effect. The worker loop that resumes the routine lives outside this crate;
//! here are the rules it follows, as a small state machine:
//!
//! 1. A receive on the input either delivers a batch or times out
//!    (`TransformerState::receive`, which decides by `on_input`).
//! 2. The routine is resumed; when it yields, its result is turned into an
//!    action and the state changes (`TransformerState::on_yield`).
//! 3. When the routine returns while a run is under way, a fresh routine is
//!    made and resumed in its place (`TransformerState::on_complete`).

use vstd::prelude::*;
use crate::channel::{refused_by, sent_one, took_one, Inbox, Outbox, RecvFailure};

verus! {

/// What a transformer routine yields.
///
/// `O` is the type of the batches the transformer takes in (a `Consume` batch
/// goes back to its input), `T` the type of the batches it emits.
#[derive(Debug, Clone)]
pub enum TransformerResult<O, T, E> {
    /// A batch of results, sent on; the routine keeps running.
    Output(Vec<T>),
    /// The routine is done with its run; a final batch, if any, is sent on.
    Terminate(Option<Vec<T>>),
    /// A batch that goes back into the transformer's own input.
    Consume(Vec<O>),
    /// An effect, reported on the effect channel.
    Effect(TransformerEffectType<E>),
}

/// The effects a routine can report, by severity.
#[derive(Debug, Clone)]
pub enum TransformerEffectType<E> {
    Emergency(Vec<E>),
    Alert(Vec<E>),
    Critical(Vec<E>),
    Error(Vec<E>),
    Warning(Vec<E>),
    Notice(Vec<E>),
    Info(Vec<E>),
    Debug(Vec<E>),
}

impl<E> TransformerEffectType<E> {
    /// Emergency and critical effects end the routine's run.
    pub open spec fn is_fatal(self) -> bool {
        self is Emergency || self is Critical
    }

    /// Whether this effect ends the routine's run.
    pub fn aborts(&self) -> (r: bool)
        ensures
            r == self.is_fatal(),
    {
        match self {
            TransformerEffectType::Emergency(_) => true,
            TransformerEffectType::Critical(_) => true,
            _ => false,
        }
    }
}

/// Where a transformer's worker stands between two resumptions of its routine.
#[derive(Debug, Clone, Copy, PartialEq, Eq, Structural)]
pub struct TransformerState {
    /// The routine has yielded and has not finished its run.
    pub is_running: bool,
    /// The routine has finished its run; the next batch needs a fresh one.
    pub coro_completed: bool,
}

/// What the worker does after a receive on the input channel.
#[derive(Debug)]
pub enum InputStep<I> {
    /// Nothing arrived and no run is under way: the worker starts over with a
    /// fresh routine and a fresh state.
    Idle,
    /// Resume the routine, with the batch that arrived if any; `fresh` says
    /// that the routine must first be replaced by a new one.
    Resume { fresh: bool, data: Option<Vec<I>> },
}

/// What the worker does with a value the routine yielded.
#[derive(Debug)]
pub enum YieldAction<I, O, E> {
    /// Send a batch on the output channel.
    Emit(Vec<O>),
    /// Send a batch back into the input channel.
    Requeue(Vec<I>),
    /// Send an effect on the effect channel.
    Report(TransformerEffectType<E>),
    /// Send nothing.
    Nothing,
}

/// The state in which every run starts: no routine has yielded yet.
pub open spec fn initial_state() -> TransformerState {
    TransformerState { is_running: false, coro_completed: false }
}

/// The invariant the worker keeps: a routine that is still running has not
/// finished.
pub open spec fn state_wf(s: TransformerState) -> bool {
    s.is_running ==> !s.coro_completed
}

/// The model of a receive: `None` when the worker goes idle, otherwise the
/// new state and whether a fresh routine is needed.
pub open spec fn input_turn(s: TransformerState, arrived: bool) -> Option<(TransformerState, bool)> {
    if !arrived && !s.is_running {
        None
    } else {
        Some((TransformerState { is_running: s.is_running, coro_completed: false }, s.coro_completed))
    }
}

/// Whether a yielded value ends the routine's run.
pub open spec fn ends_run<I, O, E>(r: TransformerResult<I, O, E>) -> bool {
    match r {
        TransformerResult::Terminate(_) => true,
        TransformerResult::Effect(e) => e.is_fatal(),
        _ => false,
    }
}

/// The model of a yield: the state after it.
pub open spec fn yield_turn<I, O, E>(s: TransformerState, r: TransformerResult<I, O, E>) -> TransformerState {
    if ends_run(r) {
        TransformerState { is_running: false, coro_completed: true }
    } else {
        TransformerState { is_running: true, coro_completed: s.coro_completed }
    }
}

/// The model of a yield: the action it calls for.
pub open spec fn yield_action<I, O, E>(r: TransformerResult<I, O, E>) -> YieldAction<I, O, E> {
    match r {
        TransformerResult::Output(v) => YieldAction::Emit(v),
        TransformerResult::Terminate(Some(v)) => YieldAction::Emit(v),
        TransformerResult::Terminate(None) => YieldAction::Nothing,
        TransformerResult::Consume(v) => YieldAction::Requeue(v),
        TransformerResult::Effect(e) => YieldAction::Report(e),
    }
}

/// A fatal effect (emergency or critical) is reported, and it ends the run:
/// afterwards the worker goes idle if no batch arrives, and a batch that does
/// arrive is handed to a fresh routine in a fresh state.
pub proof fn lemma_fatal_effect_ends_run<I, O, E>(s: TransformerState, e: TransformerEffectType<E>)
    requires
        e.is_fatal(),
    ensures
        yield_action::<I, O, E>(TransformerResult::Effect(e)) == YieldAction::<I, O, E>::Report(e),
        !yield_turn(s, TransformerResult::<I, O, E>::Effect(e)).is_running,
        input_turn(yield_turn(s, TransformerResult::<I, O, E>::Effect(e)), false) is None,
        input_turn(yield_turn(s, TransformerResult::<I, O, E>::Effect(e)), true)
            == Some((initial_state(), true)),
{
}

/// Terminating ends the run: a final batch, if given, is emitted, and the
/// next batch goes to a fresh routine.
pub proof fn lemma_terminate_ends_run<I, O, E>(s: TransformerState, last: Option<Vec<O>>)
    ensures
        yield_action::<I, O, E>(TransformerResult::Terminate(last)) == match last {
            Some(v) => YieldAction::<I, O, E>::Emit(v),
            None => YieldAction::<I, O, E>::Nothing,
        },
        !yield_turn(s, TransformerResult::<I, O, E>::Terminate(last)).is_running,
        input_turn(yield_turn(s, TransformerResult::<I, O, E>::Terminate(last)), false) is None,
        input_turn(yield_turn(s, TransformerResult::<I, O, E>::Terminate(last)), true)
            == Some((initial_state(), true)),
{
}

/// Any other yield (an output, a batch fed back, a non-fatal effect) keeps
/// the run going: the same routine is resumed next, with no batch if none
/// arrives and with the batch that arrives otherwise.
pub proof fn lemma_other_yield_keeps_run<I, O, E>(
    s: TransformerState,
    r: TransformerResult<I, O, E>,
    arrived: bool,
)
    requires
        !ends_run(r),
        !s.coro_completed,
    ensures
        yield_turn(s, r).is_running,
        input_turn(yield_turn(s, r), arrived) == Some((yield_turn(s, r), false)),
{
}

/// An output keeps the run going, whatever state it is yielded in: the
/// batch is emitted, the state is running with its completion flag as it
/// was, and the next receive resumes the same routine (a fresh one only if
/// the run had already ended before), with no batch if none arrives.
pub proof fn lemma_output_keeps_run<I, O, E>(s: TransformerState, v: Vec<O>, arrived: bool)
    ensures
        yield_action::<I, O, E>(TransformerResult::Output(v)) == YieldAction::<I, O, E>::Emit(v),
        yield_turn(s, TransformerResult::<I, O, E>::Output(v))
            == (TransformerState { is_running: true, coro_completed: s.coro_completed }),
        input_turn(yield_turn(s, TransformerResult::<I, O, E>::Output(v)), arrived)
            == Some(((TransformerState { is_running: true, coro_completed: false }), s.coro_completed)),
{
}

/// A run that yields two outputs and then terminates emits both outputs, in
/// order, from the one routine: after each output the worker keeps resuming
/// the same routine even when no new batch arrives, and only the terminate
/// ends the run, after which the worker goes idle until a batch arrives.
pub proof fn lemma_outputs_until_terminate<I, O, E>(s: TransformerState, v1: Vec<O>, v2: Vec<O>)
    requires
        !s.coro_completed,
    ensures
        ({
            let running = TransformerState { is_running: true, coro_completed: false };
            let done = TransformerState { is_running: false, coro_completed: true };
            &&& yield_action::<I, O, E>(TransformerResult::Output(v1)) == YieldAction::<I, O, E>::Emit(v1)
            &&& yield_turn(s, TransformerResult::<I, O, E>::Output(v1)) == running
            &&& input_turn(running, false) == Some((running, false))
            &&& yield_action::<I, O, E>(TransformerResult::Output(v2)) == YieldAction::<I, O, E>::Emit(v2)
            &&& yield_turn(running, TransformerResult::<I, O, E>::Output(v2)) == running
            &&& yield_action::<I, O, E>(TransformerResult::Terminate(None)) == YieldAction::<I, O, E>::Nothing
            &&& yield_turn(running, TransformerResult::<I, O, E>::Terminate(None)) == done
            &&& input_turn(done, false) is None
            &&& input_turn(done, true) == Some((initial_state(), true))
        }),
{
}

/// What keeps the worker from resuming a routine that already returned:
/// whenever no run is under way, either the run just ended (and the next
/// batch brings a fresh routine) or the routine in place has never been
/// resumed (`fresh`).
pub open spec fn resume_safe(s: TransformerState, fresh: bool) -> bool {
    !s.is_running ==> s.coro_completed || fresh
}

/// A routine is never resumed after it returned, as long as every routine
/// yields at least once before it returns. The worker starts each pass with
/// a fresh routine in the initial state; every turn keeps `resume_safe`; and
/// at the moment of a resumption either a run is under way (so a routine
/// that returns is replaced by a fresh one) or the routine in place has
/// never been resumed (so if it returns, it returned without ever yielding).
pub proof fn lemma_never_resumed_after_return<I, O, E>(
    s: TransformerState,
    fresh: bool,
    arrived: bool,
    r: TransformerResult<I, O, E>,
)
    requires
        resume_safe(s, fresh),
    ensures
        resume_safe(initial_state(), true),
        input_turn(s, arrived) matches Some((next, renew)) ==> {
            &&& resume_safe(next, renew || fresh)
            &&& (!next.is_running ==> renew || fresh)
        },
        resume_safe(yield_turn(s, r), false),
        s.is_running ==> resume_safe(s, true),
{
}

/// What each yield asks for: a batch of results is emitted, a batch to be
/// worked on again goes back into the input, and every effect is reported as
/// it was yielded.
pub proof fn lemma_yield_actions<I, O, E>(out: Vec<O>, again: Vec<I>, e: TransformerEffectType<E>)
    ensures
        yield_action::<I, O, E>(TransformerResult::Output(out)) == YieldAction::<I, O, E>::Emit(out),
        yield_action::<I, O, E>(TransformerResult::Consume(again)) == YieldAction::<I, O, E>::Requeue(again),
        yield_action::<I, O, E>(TransformerResult::Effect(e)) == YieldAction::<I, O, E>::Report(e),
{
}

/// Every turn of the worker keeps the state well formed, and a batch that
/// arrives is always resumed with, never dropped.
pub proof fn lemma_turn_keeps_wf<I, O, E>(
    s: TransformerState,
    arrived: bool,
    r: TransformerResult<I, O, E>,
)
    requires
        state_wf(s),
    ensures
        arrived ==> input_turn(s, arrived) is Some,
        input_turn(s, arrived) matches Some((next, _)) ==> {
            &&& state_wf(next)
            &&& !next.coro_completed
            &&& state_wf(yield_turn(next, r))
        },
        state_wf(initial_state()),
{
}

impl TransformerState {
    /// The state of a new run.
    pub fn new() -> (s: TransformerState)
        ensures
            s == initial_state(),
    {
        TransformerState { is_running: false, coro_completed: false }
    }

    /// Decides what follows a receive on the input channel, given what the
    /// receive returned.
    pub fn on_input<I>(&mut self, received: Result<Vec<I>, RecvFailure>) -> (step: InputStep<I>)
        ensures
            match input_turn(*old(self), received is Ok) {
                None => step is Idle && *final(self) == *old(self),
                Some((next, fresh)) => {
                    &&& *final(self) == next
                    &&& step == (InputStep::Resume { fresh, data: received.ok() })
                },
            },
    {
        let data = match received {
            Ok(v) => Some(v),
            Err(_) => {
                if !self.is_running {
                    return InputStep::Idle;
                }
                None
            },
        };
        let fresh = self.coro_completed;
        self.coro_completed = false;
        InputStep::Resume { fresh, data }
    }

    /// Waits up to `millis` milliseconds for a batch on the transformer's
    /// input and decides what follows, as `on_input` does with what came back.
    pub fn receive<I>(&mut self, input: &mut Inbox<Vec<I>>, millis: u64) -> (step: InputStep<I>)
        ensures
            step is Idle ==> !old(self).is_running && *final(self) == *old(self) && *final(input) == *old(input),
            step matches InputStep::Resume { fresh, data } ==> {
                &&& fresh == old(self).coro_completed
                &&& *final(self) == (TransformerState { is_running: old(self).is_running, coro_completed: false })
                &&& (data is None ==> old(self).is_running && *final(input) == *old(input))
                &&& (data matches Some(b) ==> took_one(*old(input), *final(input), b))
            },
    {
        let got = input.recv_within(millis);
        self.on_input(got)
    }

    /// Decides what to do with a value the routine yielded.
    pub fn on_yield<I, O, E>(&mut self, r: TransformerResult<I, O, E>) -> (action: YieldAction<I, O, E>)
        ensures
            *final(self) == yield_turn(*old(self), r),
            action == yield_action(r),
            r matches TransformerResult::Output(v) ==> {
                &&& *final(self) == (TransformerState { is_running: true, coro_completed: old(self).coro_completed })
                &&& action == YieldAction::<I, O, E>::Emit(v)
            },
            r matches TransformerResult::Consume(v) ==> {
                &&& *final(self) == (TransformerState { is_running: true, coro_completed: old(self).coro_completed })
                &&& action == YieldAction::<I, O, E>::Requeue(v)
            },
            r is Terminate ==> *final(self) == (TransformerState { is_running: false, coro_completed: true }),
            r matches TransformerResult::Effect(e) ==> {
                &&& (e is Emergency || e is Critical)
                    ==> *final(self) == (TransformerState { is_running: false, coro_completed: true })
                &&& !(e is Emergency || e is Critical)
                    ==> *final(self) == (TransformerState { is_running: true, coro_completed: old(self).coro_completed })
            },
    {
        self.is_running = true;
        match r {
            TransformerResult::Output(v) => YieldAction::Emit(v),
            TransformerResult::Terminate(v) => {
                self.is_running = false;
                self.coro_completed = true;
                match v {
                    Some(data) => YieldAction::Emit(data),
                    None => YieldAction::Nothing,
                }
            },
            TransformerResult::Consume(v) => YieldAction::Requeue(v),
            TransformerResult::Effect(e) => {
                if e.aborts() {
                    self.coro_completed = true;
                    self.is_running = false;
                }
                YieldAction::Report(e)
            },
        }
    }

    /// Decides what follows a routine that returned without yielding: when a
    /// run is under way a fresh routine is made (`true`) and resumed with the
    /// same input; otherwise the same routine is resumed again (`false`).
    pub fn on_complete(&self) -> (fresh: bool)
        ensures
            fresh == self.is_running,
    {
        self.is_running
    }
}

/// The three channels a transformer's worker sends on.
#[verifier::reject_recursive_types(I)]
#[verifier::reject_recursive_types(O)]
#[verifier::reject_recursive_types(E)]
pub struct TransformerPorts<I, O, E> {
    /// The transformer's own input, for batches that are fed back.
    pub input: Outbox<Vec<I>>,
    /// The transformer's output.
    pub output: Outbox<Vec<O>>,
    /// The effect channel.
    pub effects: Outbox<TransformerEffectType<E>>,
}

/// How carrying out `action` took the ports from `p0` to `p1`, when the send
/// went through: the payload was handed to the channel the action names, and
/// the other two channels were not touched.
pub open spec fn performed<I, O, E>(
    action: YieldAction<I, O, E>,
    p0: TransformerPorts<I, O, E>,
    p1: TransformerPorts<I, O, E>,
) -> bool {
    match action {
        YieldAction::Emit(v) => {
            &&& sent_one(p0.output, p1.output, v)
            &&& p1.input == p0.input
            &&& p1.effects == p0.effects
        },
        YieldAction::Requeue(v) => {
            &&& sent_one(p0.input, p1.input, v)
            &&& p1.output == p0.output
            &&& p1.effects == p0.effects
        },
        YieldAction::Report(e) => {
            &&& sent_one(p0.effects, p1.effects, e)
            &&& p1.input == p0.input
            &&& p1.output == p0.output
        },
        YieldAction::Nothing => p1 == p0,
    }
}

/// How a refused `action` took the ports from `p0` to `p1`: the channel the
/// action names refused the send, and the other two were not touched.
pub open spec fn refused_on<I, O, E>(
    action: YieldAction<I, O, E>,
    p0: TransformerPorts<I, O, E>,
    p1: TransformerPorts<I, O, E>,
) -> bool {
    match action {
        YieldAction::Emit(_) => {
            &&& refused_by(p0.output, p1.output)
            &&& p1.input == p0.input
            &&& p1.effects == p0.effects
        },
        YieldAction::Requeue(_) => {
            &&& refused_by(p0.input, p1.input)
            &&& p1.output == p0.output
            &&& p1.effects == p0.effects
        },
        YieldAction::Report(_) => {
            &&& refused_by(p0.effects, p1.effects)
            &&& p1.input == p0.input
            &&& p1.output == p0.output
        },
        YieldAction::Nothing => false,
    }
}

impl<I, O, E> TransformerPorts<I, O, E> {
    /// Carries out an action: sends its payload on the channel it names.
    /// It fails only when that channel refused the send: the action comes
    /// back unchanged and nothing was sent.
    pub fn perform(&mut self, action: YieldAction<I, O, E>) -> (r: Result<(), YieldAction<I, O, E>>)
        ensures
            action is Nothing ==> r is Ok,
            r is Ok ==> performed(action, *old(self), *final(self)),
            r matches Err(back) ==> back == action && refused_on(action, *old(self), *final(self)),
    {
        match action {
            YieldAction::Emit(v) => match self.output.send(v) {
                Ok(()) => Ok(()),
                Err(back) => Err(YieldAction::Emit(back)),
            },
            YieldAction::Requeue(v) => match self.input.send(v) {
                Ok(()) => Ok(()),
                Err(back) => Err(YieldAction::Requeue(back)),
            },
            YieldAction::Report(e) => match self.effects.send(e) {
                Ok(()) => Ok(()),
                Err(back) => Err(YieldAction::Report(back)),
            },
            YieldAction::Nothing => Ok(()),
        }
    }
}

} // verus!
