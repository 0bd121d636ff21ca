use combridge::decode::CallDescriptor;
use combridge::driver::{Action, CallError, Driver, Event};
use combridge::value::{DynamicValue, MarshaledValue};

fn descriptor(properties: Vec<(String, DynamicValue)>) -> CallDescriptor {
    CallDescriptor {
        version: "1".to_string(),
        prog_id: "X.Y".to_string(),
        method: "Cancel".to_string(),
        properties,
    }
}

#[test]
fn empty_properties_exactly_one_call_and_read() {
    let (mut drv, first) = Driver::new(descriptor(vec![]));
    assert_eq!(first, Action::ResolveTarget("X.Y".to_string()));

    let mut actions = vec![first];
    for ev in [
        Event::TargetResolved,
        Event::MemberResolved(7),
        Event::InvokeOk,
        Event::MemberResolved(9),
        Event::ValueReturned(MarshaledValue::Int32(0)),
        Event::Released,
    ] {
        actions.push(drv.step(ev).unwrap());
    }
    assert_eq!(
        actions,
        vec![
            Action::ResolveTarget("X.Y".to_string()),
            Action::ResolveMember("Cancel".to_string()),
            Action::CallMethod(7),
            Action::ResolveMember("ErrorCode".to_string()),
            Action::ReadProperty(9),
            Action::Release,
            Action::Report(Ok(MarshaledValue::Int32(0))),
        ]
    );
    let puts = actions
        .iter()
        .filter(|a| matches!(a, Action::PutProperty { .. }))
        .count();
    let calls = actions.iter().filter(|a| matches!(a, Action::CallMethod(_))).count();
    let reads = actions.iter().filter(|a| matches!(a, Action::ReadProperty(_))).count();
    assert_eq!(puts, 0);
    assert_eq!(calls, 1);
    assert_eq!(reads, 1);
}

#[test]
fn properties_assigned_in_order_before_the_method() {
    let (mut drv, first) = Driver::new(descriptor(vec![
        ("A".to_string(), DynamicValue::Text("b".to_string())),
        ("N".to_string(), DynamicValue::Integer(5)),
    ]));
    assert_eq!(first, Action::ResolveTarget("X.Y".to_string()));

    assert_eq!(
        drv.step(Event::TargetResolved).unwrap(),
        Action::ResolveMember("A".to_string())
    );
    assert_eq!(
        drv.step(Event::MemberResolved(11)).unwrap(),
        Action::PutProperty {
            member: 11,
            index: 0,
            value: MarshaledValue::Text("b".to_string())
        }
    );
    assert_eq!(
        drv.step(Event::InvokeOk).unwrap(),
        Action::ResolveMember("N".to_string())
    );
    assert_eq!(
        drv.step(Event::MemberResolved(12)).unwrap(),
        Action::PutProperty {
            member: 12,
            index: 1,
            value: MarshaledValue::Int32(5)
        }
    );
    assert_eq!(
        drv.step(Event::InvokeOk).unwrap(),
        Action::ResolveMember("Cancel".to_string())
    );
    assert_eq!(drv.step(Event::MemberResolved(3)).unwrap(), Action::CallMethod(3));
    assert_eq!(
        drv.step(Event::InvokeOk).unwrap(),
        Action::ResolveMember("ErrorCode".to_string())
    );
    assert_eq!(drv.step(Event::MemberResolved(4)).unwrap(), Action::ReadProperty(4));
    assert_eq!(
        drv.step(Event::ValueReturned(MarshaledValue::Text("0".to_string())))
            .unwrap(),
        Action::Release
    );
    assert_eq!(
        drv.step(Event::Released).unwrap(),
        Action::Report(Ok(MarshaledValue::Text("0".to_string())))
    );
}

#[test]
fn resolution_failure_releases_and_reports() {
    let (mut drv, _) = Driver::new(descriptor(vec![(
        "A".to_string(),
        DynamicValue::Integer(1),
    )]));
    assert_eq!(
        drv.step(Event::TargetFailed("class not registered".to_string()))
            .unwrap(),
        Action::Release
    );
    assert_eq!(
        drv.step(Event::Released).unwrap(),
        Action::Report(Err(CallError::Resolution("class not registered".to_string())))
    );
}

#[test]
fn missing_property_member_reports_its_name() {
    let (mut drv, _) = Driver::new(descriptor(vec![(
        "A".to_string(),
        DynamicValue::Integer(1),
    )]));
    drv.step(Event::TargetResolved).unwrap();
    assert_eq!(drv.step(Event::MemberMissing).unwrap(), Action::Release);
    assert_eq!(
        drv.step(Event::Released).unwrap(),
        Action::Report(Err(CallError::MemberNotFound("A".to_string())))
    );
}

#[test]
fn failed_assignment_stops_everything_but_the_release() {
    let (mut drv, _) = Driver::new(descriptor(vec![
        ("A".to_string(), DynamicValue::Integer(1)),
        ("B".to_string(), DynamicValue::Integer(2)),
    ]));
    drv.step(Event::TargetResolved).unwrap();
    drv.step(Event::MemberResolved(11)).unwrap();
    assert_eq!(
        drv.step(Event::InvokeFailed("type mismatch".to_string())).unwrap(),
        Action::Release
    );
    assert_eq!(
        drv.step(Event::Released).unwrap(),
        Action::Report(Err(CallError::Invoke(
            "A".to_string(),
            Some("type mismatch".to_string())
        )))
    );
    assert_eq!(drv.step(Event::InvokeOk), None);
}

#[test]
fn method_fault_reports_the_method() {
    let (mut drv, _) = Driver::new(descriptor(vec![]));
    drv.step(Event::TargetResolved).unwrap();
    drv.step(Event::MemberResolved(3)).unwrap();
    assert_eq!(
        drv.step(Event::InvokeFailed("busy".to_string())).unwrap(),
        Action::Release
    );
    assert_eq!(
        drv.step(Event::Released).unwrap(),
        Action::Report(Err(CallError::Invoke(
            "Cancel".to_string(),
            Some("busy".to_string())
        )))
    );
}

#[test]
fn missing_status_member_is_an_invoke_error() {
    let (mut drv, _) = Driver::new(descriptor(vec![]));
    drv.step(Event::TargetResolved).unwrap();
    drv.step(Event::MemberResolved(3)).unwrap();
    drv.step(Event::InvokeOk).unwrap();
    assert_eq!(drv.step(Event::MemberMissing).unwrap(), Action::Release);
    assert_eq!(
        drv.step(Event::Released).unwrap(),
        Action::Report(Err(CallError::Invoke("ErrorCode".to_string(), None)))
    );
}

#[test]
fn status_read_fault_is_an_invoke_error() {
    let (mut drv, _) = Driver::new(descriptor(vec![]));
    drv.step(Event::TargetResolved).unwrap();
    drv.step(Event::MemberResolved(3)).unwrap();
    drv.step(Event::InvokeOk).unwrap();
    drv.step(Event::MemberResolved(4)).unwrap();
    assert_eq!(
        drv.step(Event::InvokeFailed("read refused".to_string())).unwrap(),
        Action::Release
    );
    assert_eq!(
        drv.step(Event::Released).unwrap(),
        Action::Report(Err(CallError::Invoke(
            "ErrorCode".to_string(),
            Some("read refused".to_string())
        )))
    );
}

#[test]
fn unexpected_event_changes_nothing() {
    let (mut drv, _) = Driver::new(descriptor(vec![]));
    assert_eq!(drv.step(Event::InvokeOk), None);
    assert_eq!(drv.step(Event::Released), None);
    assert_eq!(
        drv.step(Event::TargetResolved).unwrap(),
        Action::ResolveMember("Cancel".to_string())
    );
}

#[test]
fn property_warning_flags_unsupported_values() {
    let (drv, _) = Driver::new(descriptor(vec![
        ("A".to_string(), DynamicValue::Integer(1)),
        ("B".to_string(), DynamicValue::Null),
    ]));
    assert_eq!(drv.property_warning(0), None);
    assert_eq!(
        drv.property_warning(1),
        Some("null has no scalar form; passing an empty value".to_string())
    );
    assert_eq!(drv.property_warning(2), None);
}

#[test]
fn unsupported_property_is_put_as_empty() {
    let (mut drv, _) = Driver::new(descriptor(vec![(
        "A".to_string(),
        DynamicValue::Array(vec![DynamicValue::Integer(1)]),
    )]));
    drv.step(Event::TargetResolved).unwrap();
    assert_eq!(
        drv.step(Event::MemberResolved(11)).unwrap(),
        Action::PutProperty {
            member: 11,
            index: 0,
            value: MarshaledValue::Empty
        }
    );
}

#[test]
fn decoded_document_drives_a_full_call() {
    let text = r#"{"version":"1","prog_id":"X.Y","method":"Cancel","properties":{"N":7}}"#;
    let desc = combridge::decode::decode_text(text).unwrap();
    let (mut drv, first) = Driver::new(desc);
    assert_eq!(first, Action::ResolveTarget("X.Y".to_string()));
    assert_eq!(
        drv.step(Event::TargetResolved).unwrap(),
        Action::ResolveMember("N".to_string())
    );
    assert_eq!(
        drv.step(Event::MemberResolved(2)).unwrap(),
        Action::PutProperty {
            member: 2,
            index: 0,
            value: MarshaledValue::Int32(7)
        }
    );
    assert_eq!(
        drv.step(Event::InvokeOk).unwrap(),
        Action::ResolveMember("Cancel".to_string())
    );
    assert_eq!(drv.step(Event::MemberResolved(3)).unwrap(), Action::CallMethod(3));
    assert_eq!(
        drv.step(Event::InvokeOk).unwrap(),
        Action::ResolveMember("ErrorCode".to_string())
    );
    assert_eq!(drv.step(Event::MemberResolved(4)).unwrap(), Action::ReadProperty(4));
    assert_eq!(
        drv.step(Event::ValueReturned(MarshaledValue::Int32(0))).unwrap(),
        Action::Release
    );
    assert_eq!(
        drv.step(Event::Released).unwrap(),
        Action::Report(Ok(MarshaledValue::Int32(0)))
    );
    assert_eq!(combridge::value::unmarshal(&MarshaledValue::Int32(0)), "0");
}
