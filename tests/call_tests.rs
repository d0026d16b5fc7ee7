use pyo3cls::binding::{bind_args, is_param_name, lookup_keyword, ArgSource, BindError, BindFailure};
use pyo3cls::call::{
    conversion_plan, plan_call, start_call, CallAction, CallEvent, CallFrame, CallOutcome,
    CallPhase, CallReport, SlotAction,
};
use pyo3cls::descriptor::ArgDescriptor;

fn greet_table() -> Vec<ArgDescriptor> {
    vec![
        ArgDescriptor { name: "name".to_string(), is_optional: false },
        ArgDescriptor { name: "title".to_string(), is_optional: true },
    ]
}

fn loc() -> String {
    "Greeter.greet()".to_string()
}

fn report(outcome: CallOutcome) -> CallAction {
    CallAction::ReleaseAndReturn(CallReport { location: loc(), outcome })
}

fn kws(names: &[&str]) -> Vec<String> {
    names.iter().map(|n| n.to_string()).collect()
}

#[test]
fn keyword_name_only_leaves_title_absent() {
    let slots = bind_args(&greet_table(), 0, &kws(&["name"]), &loc()).unwrap();
    assert_eq!(slots, vec![Some(ArgSource::Keyword(0)), None]);
    let plan = plan_call(&greet_table(), 0, &kws(&["name"]), &loc()).unwrap();
    assert_eq!(plan, vec![SlotAction::ExtractRequired(ArgSource::Keyword(0)), SlotAction::NoValue]);
}

#[test]
fn keyword_name_and_title_convert_both() {
    let slots = bind_args(&greet_table(), 0, &kws(&["title", "name"]), &loc()).unwrap();
    assert_eq!(slots, vec![Some(ArgSource::Keyword(1)), Some(ArgSource::Keyword(0))]);
    let plan = plan_call(&greet_table(), 0, &kws(&["title", "name"]), &loc()).unwrap();
    assert_eq!(
        plan,
        vec![
            SlotAction::ExtractRequired(ArgSource::Keyword(1)),
            SlotAction::ExtractPayload(ArgSource::Keyword(0)),
        ]
    );
}

#[test]
fn no_arguments_fail_on_name() {
    assert_eq!(
        bind_args(&greet_table(), 0, &kws(&[]), &loc()).unwrap_err(),
        BindFailure { location: loc(), error: BindError::MissingRequired { name: "name".to_string(), position: 0 } }
    );
    assert_eq!(
        plan_call(&greet_table(), 0, &kws(&["title"]), &loc()).unwrap_err(),
        BindFailure { location: loc(), error: BindError::MissingRequired { name: "name".to_string(), position: 0 } }
    );
}

#[test]
fn positional_calls_bind_in_order() {
    assert_eq!(bind_args(&greet_table(), 1, &kws(&[]), &loc()).unwrap(), vec![Some(ArgSource::Positional(0)), None]);
    assert_eq!(
        bind_args(&greet_table(), 2, &kws(&[]), &loc()).unwrap(),
        vec![Some(ArgSource::Positional(0)), Some(ArgSource::Positional(1))]
    );
    let mixed = bind_args(&greet_table(), 1, &kws(&["title"]), &loc()).unwrap();
    assert_eq!(mixed, vec![Some(ArgSource::Positional(0)), Some(ArgSource::Keyword(0))]);
    let empty: Vec<ArgDescriptor> = vec![];
    assert_eq!(bind_args(&empty, 0, &kws(&[]), &loc()).unwrap(), vec![]);
}

#[test]
fn argument_given_twice_fails() {
    assert_eq!(
        bind_args(&greet_table(), 1, &kws(&["name"]), &loc()).unwrap_err(),
        BindFailure { location: loc(), error: BindError::GivenTwice { name: "name".to_string(), position: 0 } }
    );
}

#[test]
fn unknown_keyword_fails() {
    assert_eq!(
        bind_args(&greet_table(), 1, &kws(&["honorific"]), &loc()).unwrap_err(),
        BindFailure { location: loc(), error: BindError::UnexpectedKeyword { name: "honorific".to_string() } }
    );
}

#[test]
fn excess_arguments_fail() {
    assert_eq!(
        bind_args(&greet_table(), 3, &kws(&[]), &loc()).unwrap_err(),
        BindFailure { location: loc(), error: BindError::TooManyArguments { max: 2, positional: 3, keywords: 0 } }
    );
    assert_eq!(
        bind_args(&greet_table(), 1, &kws(&["title", "x"]), &loc()).unwrap_err(),
        BindFailure { location: loc(), error: BindError::TooManyArguments { max: 2, positional: 1, keywords: 2 } }
    );
}

#[test]
fn keyword_lookup_takes_the_first_match() {
    let k = kws(&["a", "b", "a"]);
    assert_eq!(lookup_keyword(&k, &"a".to_string()), Some(0));
    assert_eq!(lookup_keyword(&k, &"b".to_string()), Some(1));
    assert_eq!(lookup_keyword(&k, &"c".to_string()), None);
    assert!(is_param_name(&greet_table(), &"title".to_string()));
    assert!(!is_param_name(&greet_table(), &"Title".to_string()));
}

#[test]
fn plan_skips_absent_and_uses_payload_for_optional() {
    let table = vec![
        ArgDescriptor { name: "a".to_string(), is_optional: true },
        ArgDescriptor { name: "b".to_string(), is_optional: false },
        ArgDescriptor { name: "c".to_string(), is_optional: true },
    ];
    let slots = vec![None, Some(ArgSource::Positional(1)), Some(ArgSource::Keyword(0))];
    assert_eq!(
        conversion_plan(&table, &slots),
        vec![
            SlotAction::NoValue,
            SlotAction::ExtractRequired(ArgSource::Positional(1)),
            SlotAction::ExtractPayload(ArgSource::Keyword(0)),
        ]
    );
}

fn drive(slots: usize, events: &[CallEvent]) -> (CallFrame, Vec<CallAction>) {
    let mut frame = CallFrame::new(slots, loc());
    let mut actions = Vec::new();
    for e in events {
        actions.push(frame.step(*e));
    }
    (frame, actions)
}

fn releases(actions: &[CallAction]) -> usize {
    actions.iter().filter(|a| matches!(a, CallAction::ReleaseAndReturn(_))).count()
}

#[test]
fn successful_call_converts_every_slot_then_invokes() {
    let events = [
        CallEvent::Bound { ok: true },
        CallEvent::Converted { ok: true },
        CallEvent::Converted { ok: true },
        CallEvent::Returned { ok: true },
    ];
    let (frame, actions) = drive(2, &events);
    assert_eq!(
        actions,
        vec![
            CallAction::ConvertSlot(0),
            CallAction::ConvertSlot(1),
            CallAction::InvokeNative,
            report(CallOutcome::Success),
        ]
    );
    assert!(frame.is_finished());
    assert_eq!(releases(&actions), 1);
}

#[test]
fn call_without_slots_invokes_at_once() {
    let (_, actions) = drive(0, &[CallEvent::Bound { ok: true }, CallEvent::Returned { ok: false }]);
    assert_eq!(
        actions,
        vec![CallAction::InvokeNative, report(CallOutcome::NativeFailure)]
    );
}

#[test]
fn binding_failure_never_invokes() {
    let events = [
        CallEvent::Bound { ok: false },
        CallEvent::Converted { ok: true },
        CallEvent::Returned { ok: true },
        CallEvent::Bound { ok: true },
    ];
    let (frame, actions) = drive(2, &events);
    assert_eq!(actions[0], report(CallOutcome::BindingFailure));
    assert!(actions[1..].iter().all(|a| *a == CallAction::Wait));
    assert_eq!(frame.phase, CallPhase::Finished);
    assert_eq!(releases(&actions), 1);
}

#[test]
fn conversion_failure_stops_at_its_slot() {
    let events = [
        CallEvent::Bound { ok: true },
        CallEvent::Converted { ok: true },
        CallEvent::Converted { ok: false },
        CallEvent::Converted { ok: true },
    ];
    let (_, actions) = drive(3, &events);
    assert_eq!(
        actions,
        vec![
            CallAction::ConvertSlot(0),
            CallAction::ConvertSlot(1),
            report(CallOutcome::ConversionFailure { slot: 1 }),
            CallAction::Wait,
        ]
    );
    assert_eq!(releases(&actions), 1);
}

#[test]
fn unfinished_call_has_not_released() {
    let (frame, actions) = drive(1, &[CallEvent::Returned { ok: true }, CallEvent::Bound { ok: true }]);
    assert_eq!(actions, vec![CallAction::Wait, CallAction::ConvertSlot(0)]);
    assert!(!frame.is_finished());
    assert_eq!(releases(&actions), 0);
}

#[test]
fn start_call_without_arguments_reports_name_at_call_site() {
    let (frame, action, planned) = start_call(&greet_table(), 0, &kws(&[]), &loc());
    assert_eq!(frame.phase, CallPhase::Finished);
    assert_eq!(action, report(CallOutcome::BindingFailure));
    let failure = planned.unwrap_err();
    assert_eq!(failure.location, "Greeter.greet()");
    assert_eq!(
        failure.error,
        BindError::MissingRequired { name: "name".to_string(), position: 0 }
    );
}

#[test]
fn start_call_with_name_converts_first_slot() {
    let (mut frame, action, planned) = start_call(&greet_table(), 1, &kws(&[]), &loc());
    assert_eq!(action, CallAction::ConvertSlot(0));
    assert_eq!(
        planned.unwrap(),
        vec![SlotAction::ExtractRequired(ArgSource::Positional(0)), SlotAction::NoValue]
    );
    assert_eq!(frame.step(CallEvent::Converted { ok: true }), CallAction::ConvertSlot(1));
    assert_eq!(frame.step(CallEvent::Converted { ok: true }), CallAction::InvokeNative);
    assert_eq!(frame.step(CallEvent::Returned { ok: true }), report(CallOutcome::Success));
}
