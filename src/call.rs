//! The control of one bridged call.
//!
//! Once the arguments are bound, each slot is converted from left to right,
//! stopping at the first failure; a present optional argument is converted to
//! its payload type and an absent one is not converted at all. The call frame
//! is a state machine driven by what the host side reports back: it decides
//! which slot to convert next, when the native method is invoked, and when the
//! argument collections are released and the call returns, which happens once
//! on every path.
use vstd::prelude::*;
use crate::binding::{
    ArgSource, BindError, BindFailure, bind_args, bind_spec, lemma_bound_required_present,
};
use crate::descriptor::ArgDescriptor;

verus! {

/// How one bound slot becomes a native argument.
#[derive(PartialEq, Eq, Structural, Clone, Copy, Debug)]
pub enum SlotAction {
    /// Convert the supplied value to the declared type.
    ExtractRequired(ArgSource),
    /// Convert the supplied value to the payload type and wrap it as given.
    ExtractPayload(ArgSource),
    /// Pass "no value" without converting anything.
    NoValue,
}

/// The action for slot `slot` of descriptor `d`.
pub open spec fn slot_action(d: ArgDescriptor, slot: Option<ArgSource>) -> SlotAction {
    match slot {
        Some(src) => if d.is_optional {
            SlotAction::ExtractPayload(src)
        } else {
            SlotAction::ExtractRequired(src)
        },
        None => SlotAction::NoValue,
    }
}

/// The conversion plan of a bound call: one action per descriptor, in order.
/// An absent slot is passed as "no value" and never converted; a present
/// optional one is converted to its payload type.
pub fn conversion_plan(descs: &Vec<ArgDescriptor>, slots: &Vec<Option<ArgSource>>) -> (r: Vec<
    SlotAction,
>)
    requires
        descs@.len() == slots@.len(),
        forall|i: int| 0 <= i < descs@.len() && !descs@[i].is_optional ==> (#[trigger] slots@[i]) is Some,
    ensures
        r@.len() == slots@.len(),
        forall|i: int|
            0 <= i < r@.len() ==> #[trigger] r@[i] == slot_action(descs@[i], slots@[i]),
        forall|i: int| 0 <= i < r@.len() && slots@[i] is None ==> #[trigger] r@[i] == SlotAction::NoValue,
        forall|i: int|
            0 <= i < r@.len() && descs@[i].is_optional && slots@[i] is Some ==> #[trigger] r@[i]
                == SlotAction::ExtractPayload(slots@[i]->Some_0),
{
    let mut out: Vec<SlotAction> = Vec::new();
    let mut i: usize = 0;
    while i < slots.len()
        invariant
            0 <= i <= slots@.len(),
            descs@.len() == slots@.len(),
            out@.len() == i,
            forall|j: int| 0 <= j < i ==> #[trigger] out@[j] == slot_action(descs@[j], slots@[j]),
        decreases slots@.len() - i,
    {
        let a = match slots[i] {
            Some(src) => if descs[i].is_optional {
                SlotAction::ExtractPayload(src)
            } else {
                SlotAction::ExtractRequired(src)
            },
            None => SlotAction::NoValue,
        };
        out.push(a);
        i = i + 1;
    }
    out
}

/// Where a call stands.
#[derive(PartialEq, Eq, Structural, Clone, Copy, Debug)]
pub enum CallPhase {
    /// The arguments are being bound.
    Binding,
    /// Slot `next` is being converted; the ones before it have been.
    Converting { next: usize },
    /// The native method is running.
    Invoking,
    /// The argument collections were released and the result handed back.
    Finished,
}

/// What the host side reports to the call frame.
#[derive(PartialEq, Eq, Structural, Clone, Copy, Debug)]
pub enum CallEvent {
    /// Binding ended, successfully or not.
    Bound { ok: bool },
    /// The conversion of the current slot ended.
    Converted { ok: bool },
    /// The native method returned, successfully or not.
    Returned { ok: bool },
}

/// How a call ended.
#[derive(PartialEq, Eq, Structural, Clone, Copy, Debug)]
pub enum CallOutcome {
    Success,
    BindingFailure,
    ConversionFailure { slot: usize },
    NativeFailure,
}

/// How a call ended, with its call site (class and method), the same for
/// every report of one call.
#[derive(PartialEq, Eq, Clone, Debug)]
pub struct CallReport {
    pub location: String,
    pub outcome: CallOutcome,
}

/// What the host side is to do next.
#[derive(PartialEq, Eq, Clone, Debug)]
pub enum CallAction {
    /// Convert this slot.
    ConvertSlot(usize),
    /// Invoke the native method with the converted arguments.
    InvokeNative,
    /// Release the positional and keyword collections and return this report.
    ReleaseAndReturn(CallReport),
    /// Nothing: the event does not apply in this phase.
    Wait,
}

/// The state of one call: the number of argument slots, the phase, and the
/// call site that every report of the call carries.
#[derive(PartialEq, Eq, Clone, Debug)]
pub struct CallFrame {
    pub slots: usize,
    pub phase: CallPhase,
    pub location: String,
}

impl CallFrame {
    /// A slot being converted is one of the call's slots.
    pub open spec fn wf(self) -> bool {
        match self.phase {
            CallPhase::Converting { next } => next < self.slots,
            _ => true,
        }
    }

    /// The action that releases the collections and reports `o`.
    pub open spec fn finish_spec(self, o: CallOutcome) -> CallAction {
        CallAction::ReleaseAndReturn(CallReport { location: self.location, outcome: o })
    }

    /// The phase that follows the conversion of slots up to `next`.
    pub open spec fn after_slot(self, next: int) -> (CallPhase, CallAction) {
        if next + 1 < self.slots {
            (CallPhase::Converting { next: (next + 1) as usize }, CallAction::ConvertSlot((next + 1) as usize))
        } else {
            (CallPhase::Invoking, CallAction::InvokeNative)
        }
    }

    /// The next phase and the action for an event.
    pub open spec fn step_spec(self, e: CallEvent) -> (CallPhase, CallAction) {
        match (self.phase, e) {
            (CallPhase::Binding, CallEvent::Bound { ok }) => if !ok {
                (CallPhase::Finished, self.finish_spec(CallOutcome::BindingFailure))
            } else if self.slots > 0 {
                (CallPhase::Converting { next: 0 }, CallAction::ConvertSlot(0))
            } else {
                (CallPhase::Invoking, CallAction::InvokeNative)
            },
            (CallPhase::Converting { next }, CallEvent::Converted { ok }) => if !ok {
                (
                    CallPhase::Finished,
                    self.finish_spec(CallOutcome::ConversionFailure { slot: next }),
                )
            } else {
                self.after_slot(next as int)
            },
            (CallPhase::Invoking, CallEvent::Returned { ok }) => if ok {
                (CallPhase::Finished, self.finish_spec(CallOutcome::Success))
            } else {
                (CallPhase::Finished, self.finish_spec(CallOutcome::NativeFailure))
            },
            _ => (self.phase, CallAction::Wait),
        }
    }

    /// A call with `slots` argument slots at the call site `location`, about
    /// to bind its arguments.
    pub fn new(slots: usize, location: String) -> (r: CallFrame)
        ensures
            r == (CallFrame { slots, phase: CallPhase::Binding, location }),
            r.wf(),
    {
        CallFrame { slots, phase: CallPhase::Binding, location }
    }

    /// The action that releases the collections and reports `o`.
    fn finish(&self, o: CallOutcome) -> (a: CallAction)
        ensures
            a == self.finish_spec(o),
    {
        CallAction::ReleaseAndReturn(CallReport { location: self.location.clone(), outcome: o })
    }

    /// Moves the call on by one event and says what to do next.
    pub fn step(&mut self, e: CallEvent) -> (a: CallAction)
        requires
            old(self).wf(),
        ensures
            final(self).wf(),
            final(self).slots == old(self).slots,
            final(self).location == old(self).location,
            (final(self).phase, a) == old(self).step_spec(e),
            a is ReleaseAndReturn ==> a->ReleaseAndReturn_0.location == old(self).location,
    {
        match (self.phase, e) {
            (CallPhase::Binding, CallEvent::Bound { ok }) => {
                if !ok {
                    self.phase = CallPhase::Finished;
                    self.finish(CallOutcome::BindingFailure)
                } else if self.slots > 0 {
                    self.phase = CallPhase::Converting { next: 0 };
                    CallAction::ConvertSlot(0)
                } else {
                    self.phase = CallPhase::Invoking;
                    CallAction::InvokeNative
                }
            },
            (CallPhase::Converting { next }, CallEvent::Converted { ok }) => {
                if !ok {
                    self.phase = CallPhase::Finished;
                    self.finish(CallOutcome::ConversionFailure { slot: next })
                } else if next + 1 < self.slots {
                    self.phase = CallPhase::Converting { next: next + 1 };
                    CallAction::ConvertSlot(next + 1)
                } else {
                    self.phase = CallPhase::Invoking;
                    CallAction::InvokeNative
                }
            },
            (CallPhase::Invoking, CallEvent::Returned { ok }) => {
                self.phase = CallPhase::Finished;
                if ok {
                    self.finish(CallOutcome::Success)
                } else {
                    self.finish(CallOutcome::NativeFailure)
                }
            },
            _ => CallAction::Wait,
        }
    }

    /// Whether the call has returned.
    pub fn is_finished(&self) -> (r: bool)
        ensures
            r == (self.phase == CallPhase::Finished),
    {
        match self.phase {
            CallPhase::Finished => true,
            _ => false,
        }
    }
}

/// The phase reached and the actions emitted when a call in `f` meets the
/// events `es` in order.
pub open spec fn run(f: CallFrame, es: Seq<CallEvent>) -> (CallPhase, Seq<CallAction>)
    decreases es.len(),
{
    if es.len() == 0 {
        (f.phase, Seq::empty())
    } else {
        let (p, a) = f.step_spec(es[0]);
        let (q, rest) = run(CallFrame { slots: f.slots, phase: p, location: f.location }, es.drop_first());
        (q, seq![a].add(rest))
    }
}

/// Whether an action releases the argument collections.
pub open spec fn releases(a: CallAction) -> bool {
    a is ReleaseAndReturn
}

/// The number of actions among `acts` that release the argument collections.
pub open spec fn release_count(acts: Seq<CallAction>) -> nat
    decreases acts.len(),
{
    if acts.len() == 0 {
        0
    } else {
        (if releases(acts[0]) { 1nat } else { 0nat }) + release_count(acts.drop_first())
    }
}

proof fn lemma_release_count_from(f: CallFrame, es: Seq<CallEvent>)
    ensures
        ({
            let (q, acts) = run(f, es);
            release_count(acts) + (if f.phase == CallPhase::Finished { 1nat } else { 0nat }) == (
            if q == CallPhase::Finished {
                1nat
            } else {
                0nat
            })
        }),
    decreases es.len(),
{
    if es.len() > 0 {
        let (p, a) = f.step_spec(es[0]);
        let g = CallFrame { slots: f.slots, phase: p, location: f.location };
        lemma_release_count_from(g, es.drop_first());
        let (q, rest) = run(g, es.drop_first());
        assert(seq![a].add(rest).drop_first() == rest);
    }
}

/// Whatever the host side reports, in whatever order, a call releases its
/// argument collections once when it has returned and never before: on
/// success and on every failure alike.
pub proof fn lemma_released_exactly_once(slots: usize, location: String, es: Seq<CallEvent>)
    ensures
        ({
            let (q, acts) = run(CallFrame { slots, phase: CallPhase::Binding, location }, es);
            &&& q == CallPhase::Finished ==> release_count(acts) == 1
            &&& q != CallPhase::Finished ==> release_count(acts) == 0
        }),
{
    lemma_release_count_from(CallFrame { slots, phase: CallPhase::Binding, location }, es);
}

proof fn lemma_finished_stays(f: CallFrame, es: Seq<CallEvent>)
    requires
        f.phase == CallPhase::Finished,
    ensures
        run(f, es).0 == CallPhase::Finished,
        run(f, es).1.len() == es.len(),
        forall|i: int| 0 <= i < es.len() ==> #[trigger] run(f, es).1[i] == CallAction::Wait,
    decreases es.len(),
{
    if es.len() > 0 {
        lemma_finished_stays(f, es.drop_first());
    }
}

/// A call whose binding fails returns a binding failure at once, reported at
/// its call site, and never invokes the native method, whatever is reported
/// afterwards.
pub proof fn lemma_binding_failure_skips_native(
    slots: usize,
    location: String,
    es: Seq<CallEvent>,
)
    ensures
        ({
            let acts = run(
                CallFrame { slots, phase: CallPhase::Binding, location },
                seq![CallEvent::Bound { ok: false }].add(es),
            ).1;
            &&& acts[0] == CallAction::ReleaseAndReturn(
                CallReport { location, outcome: CallOutcome::BindingFailure },
            )
            &&& forall|i: int| 0 <= i < acts.len() ==> acts[i] != CallAction::InvokeNative
        }),
{
    let all = seq![CallEvent::Bound { ok: false }].add(es);
    assert(all.drop_first() == es);
    let g = CallFrame { slots, phase: CallPhase::Finished, location };
    lemma_finished_stays(g, es);
    let rest = run(g, es).1;
    let acts = run(CallFrame { slots, phase: CallPhase::Binding, location }, all).1;
    assert(acts == seq![
        CallAction::ReleaseAndReturn(CallReport { location, outcome: CallOutcome::BindingFailure }),
    ].add(rest));
    assert forall|i: int| 0 <= i < acts.len() implies acts[i] != CallAction::InvokeNative by {
        if i > 0 {
            assert(acts[i] == rest[i - 1]);
        }
    }
}

/// Binds the arguments of one call and plans the conversion of each slot:
/// fails exactly when binding fails, with the binding failure; otherwise gives
/// one action per descriptor, in order.
pub fn plan_call(
    descs: &Vec<ArgDescriptor>,
    npos: usize,
    kws: &Vec<String>,
    location: &String,
) -> (r: Result<Vec<SlotAction>, BindFailure>)
    ensures
        match r {
            Ok(plan) => {
                &&& bind_spec(descs@, npos as int, kws@) is Ok
                &&& plan@.len() == descs@.len()
                &&& forall|i: int|
                    0 <= i < plan@.len() ==> #[trigger] plan@[i] == slot_action(
                        descs@[i],
                        bind_spec(descs@, npos as int, kws@)->Ok_0[i],
                    )
            },
            Err(f) => {
                &&& f.location == *location
                &&& bind_spec(descs@, npos as int, kws@) == Err::<
                    Seq<Option<ArgSource>>,
                    BindError,
                >(f.error)
            },
        },
{
    match bind_args(descs, npos, kws, location) {
        Err(f) => Err(f),
        Ok(slots) => {
            proof {
                lemma_bound_required_present(descs@, npos as int, kws@);
                assert forall|i: int|
                    0 <= i < descs@.len() && !descs@[i].is_optional implies (
                    #[trigger] slots@[i]) is Some by {
                    assert(slots@[i] == bind_spec(descs@, npos as int, kws@)->Ok_0[i]);
                }
            }
            Ok(conversion_plan(descs, &slots))
        },
    }
}

/// Starts a call at the call site `location`: binds and plans its arguments,
/// and moves a new frame on by the outcome of binding. Gives the frame, the
/// first action, and the plan or the binding failure.
pub fn start_call(
    descs: &Vec<ArgDescriptor>,
    npos: usize,
    kws: &Vec<String>,
    location: &String,
) -> (r: (CallFrame, CallAction, Result<Vec<SlotAction>, BindFailure>))
    ensures
        r.0.wf(),
        ({
            let start = CallFrame { slots: descs@.len() as usize, phase: CallPhase::Binding, location: *location };
            let ok = bind_spec(descs@, npos as int, kws@) is Ok;
            &&& r.0.slots == descs@.len()
            &&& r.0.location == *location
            &&& (r.0.phase, r.1) == start.step_spec(CallEvent::Bound { ok })
            &&& r.2 is Ok == ok
        }),
        match r.2 {
            Ok(plan) => {
                &&& plan@.len() == descs@.len()
                &&& forall|i: int|
                    0 <= i < plan@.len() ==> #[trigger] plan@[i] == slot_action(
                        descs@[i],
                        bind_spec(descs@, npos as int, kws@)->Ok_0[i],
                    )
            },
            Err(f) => {
                &&& f.location == *location
                &&& bind_spec(descs@, npos as int, kws@) == Err::<
                    Seq<Option<ArgSource>>,
                    BindError,
                >(f.error)
            },
        },
{
    let planned = plan_call(descs, npos, kws, location);
    let mut frame = CallFrame::new(descs.len(), location.clone());
    let ok = planned.is_ok();
    let a = frame.step(CallEvent::Bound { ok });
    (frame, a, planned)
}

} // verus!
