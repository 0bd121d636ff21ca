//! The invocation driver.
//!
//! The host's automation runtime — name resolution, tagged invocation,
//! instantiation and release — is a capability the surrounding program
//! supplies. The driver is the verified half of that conversation: a state
//! machine that, for one call descriptor, asks for the target, assigns every
//! property in order, invokes the method, reads the status property and
//! releases the scope, each step named as an [`Action`] and answered by an
//! [`Event`]. Every failure is terminal for the call, and the release of
//! the automation scope is requested on every path, success or failure.
//!
//! The status read takes whatever scalar the target returns and reports it
//! as text (see [`crate::value::unmarshal`]): text covers the numeric form,
//! so targets whose status property is numeric are reported as well.

use crate::decode::CallDescriptor;
use crate::value::{marshal, marshal_warning, spec_marshal, warning_matches, MarshaledValue};
use vstd::prelude::*;

verus! {

/// A numeric member identifier, resolved on the target by name at run time.
pub type MemberId = i32;

/// Why a decoded call failed against the host.
#[derive(Debug, PartialEq)]
pub enum CallError {
    /// The target identifier did not resolve to an instantiable target, or
    /// instantiation was refused; carries the host's description.
    Resolution(String),
    /// A property or method name did not resolve on the target; carries
    /// the name.
    MemberNotFound(String),
    /// The target faulted during an assignment, the method invocation or
    /// the status read; carries the member name and, where the host gave
    /// one, the fault description.
    Invoke(String, Option<String>),
}

/// One call the driver asks the host to perform next.
#[derive(Debug, PartialEq)]
pub enum Action {
    /// Locate the target class named by the identifier and instantiate it.
    ResolveTarget(String),
    /// Resolve the named member on the target to its numeric identifier.
    ResolveMember(String),
    /// A property-put invocation: assign the marshaled value of property
    /// `index` of the descriptor to the resolved member, as the one
    /// distinguished put argument.
    PutProperty { member: MemberId, index: usize, value: MarshaledValue },
    /// A method invocation with no arguments.
    CallMethod(MemberId),
    /// A property-get invocation: read the status property.
    ReadProperty(MemberId),
    /// Release the target handle and the automation scope.
    Release,
    /// The call is over: report the returned status value or the error.
    /// No further event is expected.
    Report(Result<MarshaledValue, CallError>),
}

/// The host's answer to the action the driver asked for.
#[derive(Debug, PartialEq)]
pub enum Event {
    /// The target was located and instantiated.
    TargetResolved,
    /// The target could not be located or instantiated; carries the
    /// host's description.
    TargetFailed(String),
    /// The member name resolved to this numeric identifier.
    MemberResolved(MemberId),
    /// The member name did not resolve on the target.
    MemberMissing,
    /// The invocation completed.
    InvokeOk,
    /// The target faulted; carries the fault description.
    InvokeFailed(String),
    /// The property read returned this scalar.
    ValueReturned(MarshaledValue),
    /// The handle and the automation scope were released.
    Released,
}

/// Where the driver stands in the call.
#[derive(Debug, PartialEq)]
pub enum Phase {
    /// Waiting for the target to be located and instantiated.
    ResolveTarget,
    /// Waiting for the name of property `i` to resolve.
    ResolveProp(usize),
    /// Waiting for the assignment of property `i` to complete.
    PutProp(usize),
    /// Waiting for the method name to resolve.
    ResolveMethod,
    /// Waiting for the method invocation to complete.
    InvokeMethod,
    /// Waiting for the status member name to resolve.
    ResolveStatus,
    /// Waiting for the status property read.
    ReadStatus,
    /// Waiting for the scope to be released; holds the outcome to report.
    Releasing(Result<MarshaledValue, CallError>),
    /// The call is over.
    Done(Result<MarshaledValue, CallError>),
}

/// The name of the conventional status property read at the end of every
/// successful call.
pub open spec fn status_member() -> Seq<char> {
    "ErrorCode"@
}

/// The driver for one call descriptor.
#[derive(Debug)]
pub struct Driver {
    pub desc: CallDescriptor,
    pub status_name: String,
    pub phase: Phase,
}

/// The given driver with only its phase changed.
pub open spec fn with_phase(d: Driver, p: Phase) -> Driver {
    Driver { phase: p, ..d }
}

/// Advancing to property `i`, or to the method once every property is
/// assigned: the next thing to resolve.
pub open spec fn spec_advance(d: Driver, i: usize) -> (Phase, Action) {
    if (i as int) < d.desc.properties@.len() {
        (Phase::ResolveProp(i), Action::ResolveMember(d.desc.properties@[i as int].0))
    } else {
        (Phase::ResolveMethod, Action::ResolveMember(d.desc.method))
    }
}

/// Aborting the call: the outcome is fixed, and the scope is released
/// before it is reported.
pub open spec fn spec_fail(e: CallError) -> (Phase, Action) {
    (Phase::Releasing(Err(e)), Action::Release)
}

/// The transition table: what the driver does in each phase with each
/// event. Nothing for an event the phase does not expect, and nothing
/// once the call is over.
pub open spec fn spec_step(d: Driver, ev: Event) -> Option<(Phase, Action)> {
    match (d.phase, ev) {
        (Phase::ResolveTarget, Event::TargetResolved) => Some(spec_advance(d, 0)),
        (Phase::ResolveTarget, Event::TargetFailed(e)) => Some(
            spec_fail(CallError::Resolution(e)),
        ),
        (Phase::ResolveProp(i), Event::MemberResolved(id)) => Some(
            (
                Phase::PutProp(i),
                Action::PutProperty {
                    member: id,
                    index: i,
                    value: spec_marshal(d.desc.properties@[i as int].1),
                },
            ),
        ),
        (Phase::ResolveProp(i), Event::MemberMissing) => Some(
            spec_fail(CallError::MemberNotFound(d.desc.properties@[i as int].0)),
        ),
        (Phase::PutProp(i), Event::InvokeOk) => Some(spec_advance(d, (i + 1) as usize)),
        (Phase::PutProp(i), Event::InvokeFailed(e)) => Some(
            spec_fail(CallError::Invoke(d.desc.properties@[i as int].0, Some(e))),
        ),
        (Phase::ResolveMethod, Event::MemberResolved(id)) => Some(
            (Phase::InvokeMethod, Action::CallMethod(id)),
        ),
        (Phase::ResolveMethod, Event::MemberMissing) => Some(
            spec_fail(CallError::MemberNotFound(d.desc.method)),
        ),
        (Phase::InvokeMethod, Event::InvokeOk) => Some(
            (Phase::ResolveStatus, Action::ResolveMember(d.status_name)),
        ),
        (Phase::InvokeMethod, Event::InvokeFailed(e)) => Some(
            spec_fail(CallError::Invoke(d.desc.method, Some(e))),
        ),
        (Phase::ResolveStatus, Event::MemberResolved(id)) => Some(
            (Phase::ReadStatus, Action::ReadProperty(id)),
        ),
        (Phase::ResolveStatus, Event::MemberMissing) => Some(
            spec_fail(CallError::Invoke(d.status_name, None)),
        ),
        (Phase::ReadStatus, Event::ValueReturned(m)) => Some(
            (Phase::Releasing(Ok(m)), Action::Release),
        ),
        (Phase::ReadStatus, Event::InvokeFailed(e)) => Some(
            spec_fail(CallError::Invoke(d.status_name, Some(e))),
        ),
        (Phase::Releasing(o), Event::Released) => Some((Phase::Done(o), Action::Report(o))),
        _ => None,
    }
}

fn clone_marshaled(m: &MarshaledValue) -> (r: MarshaledValue)
    ensures
        r == *m,
{
    match m {
        MarshaledValue::Text(s) => MarshaledValue::Text(s.clone()),
        MarshaledValue::Int32(i) => MarshaledValue::Int32(*i),
        MarshaledValue::FloatText(t) => MarshaledValue::FloatText(t.clone()),
        MarshaledValue::Boolean(b) => MarshaledValue::Boolean(*b),
        MarshaledValue::Empty => MarshaledValue::Empty,
    }
}

fn clone_error(e: &CallError) -> (r: CallError)
    ensures
        r == *e,
{
    match e {
        CallError::Resolution(s) => CallError::Resolution(s.clone()),
        CallError::MemberNotFound(s) => CallError::MemberNotFound(s.clone()),
        CallError::Invoke(s, None) => CallError::Invoke(s.clone(), None),
        CallError::Invoke(s, Some(t)) => CallError::Invoke(s.clone(), Some(t.clone())),
    }
}

fn clone_outcome(o: &Result<MarshaledValue, CallError>) -> (r: Result<MarshaledValue, CallError>)
    ensures
        r == *o,
{
    match o {
        Ok(m) => Ok(clone_marshaled(m)),
        Err(e) => Err(clone_error(e)),
    }
}

impl Driver {
    /// The descriptor is one a vector can hold, and the property indices a
    /// phase refers to lie inside it.
    pub open spec fn wf(self) -> bool {
        &&& self.desc.properties@.len() <= usize::MAX
        &&& match self.phase {
            Phase::ResolveProp(i) => (i as int) < self.desc.properties@.len(),
            Phase::PutProp(i) => (i as int) < self.desc.properties@.len(),
            _ => true,
        }
    }

    /// Starts a call: the driver's first request is to locate and
    /// instantiate the target.
    pub fn new(desc: CallDescriptor) -> (r: (Driver, Action))
        ensures
            r.0.desc == desc,
            r.0.status_name@ == status_member(),
            r.0.phase == Phase::ResolveTarget,
            r.0.wf(),
            r.1 == Action::ResolveTarget(desc.prog_id),
    {
        let n: usize = desc.properties.len();
        assert(desc.properties@.len() == n as int);
        let prog = desc.prog_id.clone();
        (
            Driver { desc, status_name: "ErrorCode".to_owned(), phase: Phase::ResolveTarget },
            Action::ResolveTarget(prog),
        )
    }

    fn advance(&self, i: usize) -> (r: (Phase, Action))
        requires
            i <= self.desc.properties@.len(),
        ensures
            r == spec_advance(*self, i),
    {
        if i < self.desc.properties.len() {
            (Phase::ResolveProp(i), Action::ResolveMember(self.desc.properties[i].0.clone()))
        } else {
            (Phase::ResolveMethod, Action::ResolveMember(self.desc.method.clone()))
        }
    }

    /// Feeds the host's answer to the driver's last request and yields the
    /// next request, exactly as the transition table says; nothing for an
    /// event the current phase does not expect, with the driver unchanged.
    pub fn step(&mut self, ev: Event) -> (r: Option<Action>)
        requires
            old(self).wf(),
        ensures
            final(self).wf(),
            final(self).desc == old(self).desc,
            final(self).status_name == old(self).status_name,
            match spec_step(*old(self), ev) {
                Some(p) => final(self).phase == p.0 && r == Some(p.1),
                None => *final(self) == *old(self) && r is None,
            },
    {
        let next: Option<(Phase, Action)> = match (&self.phase, ev) {
            (Phase::ResolveTarget, Event::TargetResolved) => Some(self.advance(0)),
            (Phase::ResolveTarget, Event::TargetFailed(e)) => Some(
                (Phase::Releasing(Err(CallError::Resolution(e))), Action::Release),
            ),
            (Phase::ResolveProp(i), Event::MemberResolved(id)) => {
                let idx: usize = *i;
                Some(
                    (
                        Phase::PutProp(idx),
                        Action::PutProperty {
                            member: id,
                            index: idx,
                            value: marshal(&self.desc.properties[idx].1),
                        },
                    ),
                )
            },
            (Phase::ResolveProp(i), Event::MemberMissing) => Some(
                (
                    Phase::Releasing(
                        Err(CallError::MemberNotFound(self.desc.properties[*i].0.clone())),
                    ),
                    Action::Release,
                ),
            ),
            (Phase::PutProp(i), Event::InvokeOk) => {
                let idx: usize = *i;
                let n: usize = self.desc.properties.len();
                assert(idx < n);
                Some(self.advance(idx + 1))
            },
            (Phase::PutProp(i), Event::InvokeFailed(e)) => Some(
                (
                    Phase::Releasing(
                        Err(CallError::Invoke(self.desc.properties[*i].0.clone(), Some(e))),
                    ),
                    Action::Release,
                ),
            ),
            (Phase::ResolveMethod, Event::MemberResolved(id)) => Some(
                (Phase::InvokeMethod, Action::CallMethod(id)),
            ),
            (Phase::ResolveMethod, Event::MemberMissing) => Some(
                (
                    Phase::Releasing(Err(CallError::MemberNotFound(self.desc.method.clone()))),
                    Action::Release,
                ),
            ),
            (Phase::InvokeMethod, Event::InvokeOk) => Some(
                (Phase::ResolveStatus, Action::ResolveMember(self.status_name.clone())),
            ),
            (Phase::InvokeMethod, Event::InvokeFailed(e)) => Some(
                (
                    Phase::Releasing(Err(CallError::Invoke(self.desc.method.clone(), Some(e)))),
                    Action::Release,
                ),
            ),
            (Phase::ResolveStatus, Event::MemberResolved(id)) => Some(
                (Phase::ReadStatus, Action::ReadProperty(id)),
            ),
            (Phase::ResolveStatus, Event::MemberMissing) => Some(
                (
                    Phase::Releasing(Err(CallError::Invoke(self.status_name.clone(), None))),
                    Action::Release,
                ),
            ),
            (Phase::ReadStatus, Event::ValueReturned(m)) => Some(
                (Phase::Releasing(Ok(m)), Action::Release),
            ),
            (Phase::ReadStatus, Event::InvokeFailed(e)) => Some(
                (
                    Phase::Releasing(Err(CallError::Invoke(self.status_name.clone(), Some(e)))),
                    Action::Release,
                ),
            ),
            (Phase::Releasing(o), Event::Released) => {
                let outcome = clone_outcome(o);
                let report = clone_outcome(o);
                Some((Phase::Done(outcome), Action::Report(report)))
            },
            _ => None,
        };
        match next {
            Some(p) => {
                self.phase = p.0;
                Some(p.1)
            },
            None => None,
        }
    }

    /// The diagnostic for the property behind a `PutProperty` action, for
    /// the operator-visible error channel: exactly the message the
    /// marshaling rules fix for that property's value — present iff the
    /// value has no defined scalar form, and naming an unsupported number.
    pub fn property_warning(&self, index: usize) -> (r: Option<String>)
        ensures
            (index as int) < self.desc.properties@.len() ==> warning_matches(
                self.desc.properties@[index as int].1,
                r,
            ),
            (index as int) >= self.desc.properties@.len() ==> r is None,
    {
        if index < self.desc.properties.len() {
            marshal_warning(&self.desc.properties[index].1)
        } else {
            None
        }
    }
}

/// The driver run over a whole sequence of events: the final driver and
/// every action it asked for, in order; nothing if any event was one its
/// phase did not expect.
pub open spec fn spec_run(d: Driver, evs: Seq<Event>) -> Option<(Driver, Seq<Action>)>
    decreases evs.len(),
{
    if evs.len() == 0 {
        Some((d, Seq::empty()))
    } else {
        match spec_step(d, evs[0]) {
            None => None,
            Some(p) => match spec_run(with_phase(d, p.0), evs.skip(1)) {
                None => None,
                Some(q) => Some((q.0, seq![p.1] + q.1)),
            },
        }
    }
}

/// The final driver and action sequence of a run that is known to go
/// through.
pub open spec fn run_result(d: Driver, evs: Seq<Event>) -> (Driver, Seq<Action>) {
    spec_run(d, evs)->0
}

/// How many property assignments a sequence of actions asks for.
pub open spec fn count_puts(acts: Seq<Action>) -> nat
    decreases acts.len(),
{
    if acts.len() == 0 {
        0
    } else {
        (if acts[0] is PutProperty {
            1nat
        } else {
            0nat
        }) + count_puts(acts.skip(1))
    }
}

/// How many method invocations a sequence of actions asks for.
pub open spec fn count_method_calls(acts: Seq<Action>) -> nat
    decreases acts.len(),
{
    if acts.len() == 0 {
        0
    } else {
        (if acts[0] is CallMethod {
            1nat
        } else {
            0nat
        }) + count_method_calls(acts.skip(1))
    }
}

/// How many status reads a sequence of actions asks for.
pub open spec fn count_reads(acts: Seq<Action>) -> nat
    decreases acts.len(),
{
    if acts.len() == 0 {
        0
    } else {
        (if acts[0] is ReadProperty {
            1nat
        } else {
            0nat
        }) + count_reads(acts.skip(1))
    }
}

/// How many scope releases a sequence of actions asks for.
pub open spec fn count_releases(acts: Seq<Action>) -> nat
    decreases acts.len(),
{
    if acts.len() == 0 {
        0
    } else {
        (if acts[0] is Release {
            1nat
        } else {
            0nat
        }) + count_releases(acts.skip(1))
    }
}

/// The property assignments a driver in this phase has yet to ask for.
pub open spec fn puts_remaining(d: Driver) -> int {
    match d.phase {
        Phase::ResolveTarget => d.desc.properties@.len() as int,
        Phase::ResolveProp(i) => d.desc.properties@.len() - i,
        Phase::PutProp(i) => d.desc.properties@.len() - i - 1,
        _ => 0,
    }
}

/// The method invocations a driver in this phase has yet to ask for.
pub open spec fn methods_remaining(d: Driver) -> int {
    match d.phase {
        Phase::ResolveTarget => 1,
        Phase::ResolveProp(_) => 1,
        Phase::PutProp(_) => 1,
        Phase::ResolveMethod => 1,
        _ => 0,
    }
}

/// The status reads a driver in this phase has yet to ask for.
pub open spec fn reads_remaining(d: Driver) -> int {
    match d.phase {
        Phase::ReadStatus => 0,
        Phase::Releasing(_) => 0,
        Phase::Done(_) => 0,
        _ => 1,
    }
}

/// The scope releases a driver in this phase has yet to ask for.
pub open spec fn releases_remaining(d: Driver) -> int {
    match d.phase {
        Phase::Releasing(_) => 0,
        Phase::Done(_) => 0,
        _ => 1,
    }
}

proof fn lemma_count_cons(a: Action, rest: Seq<Action>)
    ensures
        count_puts(seq![a] + rest) == (if a is PutProperty {
            1nat
        } else {
            0nat
        }) + count_puts(rest),
        count_method_calls(seq![a] + rest) == (if a is CallMethod {
            1nat
        } else {
            0nat
        }) + count_method_calls(rest),
        count_reads(seq![a] + rest) == (if a is ReadProperty {
            1nat
        } else {
            0nat
        }) + count_reads(rest),
        count_releases(seq![a] + rest) == (if a is Release {
            1nat
        } else {
            0nat
        }) + count_releases(rest),
{
    assert((seq![a] + rest).skip(1) =~= rest);
    assert((seq![a] + rest)[0] == a);
}

/// The accounting law behind the driver: along any run, the actions asked
/// for never exceed what the starting phase still owes — and a run that
/// ends with a successful report has asked for all of them, and for the
/// release exactly once.
pub proof fn lemma_run_counts(d: Driver, evs: Seq<Event>)
    requires
        d.wf(),
        spec_run(d, evs) is Some,
    ensures
        ({
            let q = spec_run(d, evs)->0;
            &&& q.0.wf()
            &&& q.0.desc == d.desc
            &&& q.0.status_name == d.status_name
            &&& count_puts(q.1) <= puts_remaining(d)
            &&& count_method_calls(q.1) <= methods_remaining(d)
            &&& count_reads(q.1) <= reads_remaining(d)
            &&& count_releases(q.1) <= releases_remaining(d)
            &&& (q.0.phase matches Phase::Done(o) && o is Ok ==> count_puts(q.1)
                == puts_remaining(d) && count_method_calls(q.1) == methods_remaining(d)
                && count_reads(q.1) == reads_remaining(d))
            &&& (q.0.phase is Done ==> count_releases(q.1) == releases_remaining(d))
            &&& (d.phase matches Phase::Releasing(o) ==> (q.0.phase is Releasing || q.0.phase
                == Phase::Done(o)))
            &&& (d.phase is Done ==> q.0 == d && q.1 =~= Seq::<Action>::empty())
        }),
    decreases evs.len(),
{
    if evs.len() == 0 {
    } else {
        let p = spec_step(d, evs[0])->0;
        let d1 = with_phase(d, p.0);
        assert(d1.wf());
        lemma_run_counts(d1, evs.skip(1));
        let q1 = spec_run(d1, evs.skip(1))->0;
        lemma_count_cons(p.1, q1.1);
    }
}

/// The actions ask for property assignments with indices in increasing
/// order starting at `floor`, and ask for none at all once a method
/// invocation has been asked for.
pub open spec fn puts_in_order(acts: Seq<Action>, floor: int) -> bool
    decreases acts.len(),
{
    if acts.len() == 0 {
        true
    } else {
        match acts[0] {
            Action::PutProperty { index, .. } => index >= floor && puts_in_order(
                acts.skip(1),
                index + 1,
            ),
            Action::CallMethod(_) => count_puts(acts.skip(1)) == 0,
            _ => puts_in_order(acts.skip(1), floor),
        }
    }
}

/// The index of the next property a driver in this phase would assign.
pub open spec fn put_floor(d: Driver) -> int {
    match d.phase {
        Phase::ResolveProp(i) => i as int,
        Phase::PutProp(i) => i + 1,
        _ => 0,
    }
}

proof fn lemma_no_puts_in_any_order(acts: Seq<Action>, floor: int)
    requires
        count_puts(acts) == 0,
    ensures
        puts_in_order(acts, floor),
    decreases acts.len(),
{
    if acts.len() > 0 {
        lemma_no_puts_in_any_order(acts.skip(1), floor);
        if acts[0] is PutProperty {
            assert(count_puts(acts) >= 1);
        }
    }
}

proof fn lemma_puts_in_order_weaken(acts: Seq<Action>, f1: int, f2: int)
    requires
        puts_in_order(acts, f2),
        f1 <= f2,
    ensures
        puts_in_order(acts, f1),
    decreases acts.len(),
{
    if acts.len() > 0 {
        match acts[0] {
            Action::PutProperty { index, .. } => {},
            Action::CallMethod(_) => {},
            _ => {
                lemma_puts_in_order_weaken(acts.skip(1), f1, f2);
            },
        }
    }
}

/// The ordering law behind the driver: along any run, the property
/// assignments it asks for come in the order the descriptor lists the
/// properties, each at most once, and none is asked for once the method
/// invocation has been — assignment strictly precedes invocation.
pub proof fn lemma_assignment_order(d: Driver, evs: Seq<Event>)
    requires
        d.wf(),
        spec_run(d, evs) is Some,
    ensures
        puts_in_order(run_result(d, evs).1, put_floor(d)),
    decreases evs.len(),
{
    if evs.len() == 0 {
    } else {
        let p = spec_step(d, evs[0])->0;
        let d1 = with_phase(d, p.0);
        assert(d1.wf());
        lemma_assignment_order(d1, evs.skip(1));
        lemma_run_counts(d1, evs.skip(1));
        let q1 = spec_run(d1, evs.skip(1))->0;
        let acts = run_result(d, evs).1;
        assert(acts =~= seq![p.1] + q1.1);
        assert(acts.skip(1) =~= q1.1);
        assert(acts[0] == p.1);
        match p.1 {
            Action::PutProperty { index, .. } => {
                assert(puts_in_order(q1.1, put_floor(d1)));
            },
            Action::CallMethod(_) => {
                assert(puts_remaining(d1) == 0);
            },
            _ => {
                if puts_remaining(d1) == 0 {
                    lemma_no_puts_in_any_order(q1.1, put_floor(d));
                } else {
                    lemma_puts_in_order_weaken(q1.1, put_floor(d), put_floor(d1));
                }
            },
        }
    }
}

/// A well-formed call with an empty properties mapping performs exactly
/// one method invocation and one status read, and no property assignment,
/// on every run that completes with a successful report.
pub proof fn lemma_empty_properties_one_call(d: Driver, evs: Seq<Event>)
    requires
        d.wf(),
        d.phase == Phase::ResolveTarget,
        d.desc.properties@.len() == 0,
        spec_run(d, evs) is Some,
        run_result(d, evs).0.phase matches Phase::Done(o) && o is Ok,
    ensures
        count_puts(run_result(d, evs).1) == 0,
        count_method_calls(run_result(d, evs).1) == 1,
        count_reads(run_result(d, evs).1) == 1,
{
    lemma_run_counts(d, evs);
}

/// Every run that reaches its report has asked for the release of the
/// automation scope exactly once, whether the call succeeded or failed.
pub proof fn lemma_release_discipline(d: Driver, evs: Seq<Event>)
    requires
        d.wf(),
        d.phase == Phase::ResolveTarget,
        spec_run(d, evs) is Some,
        run_result(d, evs).0.phase is Done,
    ensures
        count_releases(run_result(d, evs).1) == 1,
{
    lemma_run_counts(d, evs);
}

/// A target that does not resolve aborts the call with a resolution
/// error: the scope release is asked for at once, no property assignment,
/// method invocation or status read is ever asked for afterwards, and the
/// next event completes the call with the error reported.
pub proof fn lemma_resolution_failure_stops(d: Driver, detail: String, evs: Seq<Event>)
    requires
        d.wf(),
        d.phase == Phase::ResolveTarget,
    ensures
        ({
            let p = spec_step(d, Event::TargetFailed(detail))->0;
            let failed = with_phase(d, p.0);
            &&& spec_step(d, Event::TargetFailed(detail)) is Some
            &&& p.1 == Action::Release
            &&& p.0 == Phase::Releasing(
                Err::<MarshaledValue, CallError>(CallError::Resolution(detail)),
            )
            &&& (spec_run(failed, evs) matches Some(q) ==> count_puts(q.1) == 0
                && count_method_calls(q.1) == 0 && count_reads(q.1) == 0)
            &&& spec_run(failed, seq![Event::Released]) == Some(
                (
                    with_phase(
                        d,
                        Phase::Done(Err::<MarshaledValue, CallError>(CallError::Resolution(detail))),
                    ),
                    seq![
                        Action::Report(
                            Err::<MarshaledValue, CallError>(CallError::Resolution(detail)),
                        ),
                    ],
                ),
            )
        }),
{
    let o = Err::<MarshaledValue, CallError>(CallError::Resolution(detail));
    let p = spec_step(d, Event::TargetFailed(detail))->0;
    let failed = with_phase(d, p.0);
    if spec_run(failed, evs) is Some {
        lemma_run_counts(failed, evs);
    }
    let evs1 = seq![Event::Released];
    assert(evs1.skip(1) =~= Seq::<Event>::empty());
    let p2 = spec_step(failed, Event::Released)->0;
    assert(p2 == (Phase::Done(o), Action::Report(o)));
    assert(spec_run(with_phase(failed, p2.0), evs1.skip(1)) == Some(
        (with_phase(failed, p2.0), Seq::<Action>::empty()),
    ));
    assert(seq![p2.1] + Seq::<Action>::empty() =~= seq![Action::Report(o)]);
    assert(with_phase(failed, p2.0) == with_phase(d, Phase::Done(o)));
}

/// A failed property assignment aborts the call: the scope release is
/// asked for at once, no further property assignment and no method
/// invocation or status read is ever asked for, and the next event
/// completes the call with the fault reported against the property's
/// name.
pub proof fn lemma_put_failure_stops(d: Driver, i: usize, detail: String, evs: Seq<Event>)
    requires
        d.wf(),
        d.phase == Phase::PutProp(i),
    ensures
        ({
            let e = CallError::Invoke(d.desc.properties@[i as int].0, Some(detail));
            let p = spec_step(d, Event::InvokeFailed(detail))->0;
            let failed = with_phase(d, p.0);
            &&& spec_step(d, Event::InvokeFailed(detail)) is Some
            &&& p.1 == Action::Release
            &&& p.0 == Phase::Releasing(Err::<MarshaledValue, CallError>(e))
            &&& (spec_run(failed, evs) matches Some(q) ==> count_puts(q.1) == 0
                && count_method_calls(q.1) == 0 && count_reads(q.1) == 0)
            &&& spec_run(failed, seq![Event::Released]) == Some(
                (
                    with_phase(d, Phase::Done(Err::<MarshaledValue, CallError>(e))),
                    seq![Action::Report(Err::<MarshaledValue, CallError>(e))],
                ),
            )
        }),
{
    let e = CallError::Invoke(d.desc.properties@[i as int].0, Some(detail));
    let o = Err::<MarshaledValue, CallError>(e);
    let p = spec_step(d, Event::InvokeFailed(detail))->0;
    let failed = with_phase(d, p.0);
    if spec_run(failed, evs) is Some {
        lemma_run_counts(failed, evs);
    }
    let evs1 = seq![Event::Released];
    assert(evs1.skip(1) =~= Seq::<Event>::empty());
    let p2 = spec_step(failed, Event::Released)->0;
    assert(p2 == (Phase::Done(o), Action::Report(o)));
    assert(spec_run(with_phase(failed, p2.0), evs1.skip(1)) == Some(
        (with_phase(failed, p2.0), Seq::<Action>::empty()),
    ));
    assert(seq![p2.1] + Seq::<Action>::empty() =~= seq![Action::Report(o)]);
    assert(with_phase(failed, p2.0) == with_phase(d, Phase::Done(o)));
}

} // verus!
