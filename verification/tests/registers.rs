use liquid_verified::kstring::KString;
use liquid_verified::policy::{
    filter_dispatch, FilterDispatch, ProdErrorMode, ProdPolicyConfig, RenderedBytesRegister,
    RubyConformancePolicy,
};
use liquid_verified::registers::{
    commit_assign, AssignBinding, AssignedSource, enter_render_scope, increment_assign_bytes, install_prod_policy, push_live_scope_frame,
    take_render_errors, LiveScopeFrame, LiveScopeSession, LiveScopeSnapshot, LiveScopeValue,
    Registers,
};
use liquid_verified::value::Value;

fn text(value: LiveScopeValue) -> String {
    value
        .value()
        .as_scalar()
        .unwrap()
        .to_kstr()
        .as_str()
        .to_string()
}

#[test]
fn live_scope_session_prefers_innermost_scope_and_pops_on_drop() {
    let mut session = LiveScopeSession::new();

    let mut outer = LiveScopeSnapshot::new();
    outer.insert(KString::from_ref("item"), &Value::string("outer"));
    let outer_guard = session.push_root_scope(outer);

    assert_eq!(session.find_root("item").map(text), Some("outer".into()));
    assert_eq!(session.depth(), 1);

    {
        let mut inner = LiveScopeSnapshot::new();
        inner.insert(KString::from_ref("item"), &Value::string("inner"));
        inner.insert(KString::from_ref("other"), &Value::string("value"));
        let inner_guard = session.push_root_scope(inner);

        assert_eq!(session.find_root("item").map(text), Some("inner".into()));
        assert_eq!(session.find_root("other").map(text), Some("value".into()));
        assert_eq!(session.depth(), 2);

        inner_guard.release(&mut session);
    }

    assert_eq!(session.find_root("item").map(text), Some("outer".into()));
    assert!(session.find_root("other").is_none());
    assert_eq!(session.depth(), 1);

    outer_guard.release(&mut session);
    assert!(session.find_root("item").is_none());
    assert_eq!(session.depth(), 0);
}

#[test]
fn live_scope_session_becomes_inert_after_deactivate() {
    let mut session = LiveScopeSession::new();

    let mut scope = LiveScopeSnapshot::new();
    scope.insert(KString::from_ref("item"), &Value::string("outer"));
    let _guard = session.push_root_scope(scope);

    assert!(session.is_active());
    assert!(session.find_root("item").is_some());

    session.deactivate();

    assert!(!session.is_active());
    assert!(session.find_root("item").is_none());
    assert_eq!(session.depth(), 0);
}

#[test]
fn push_live_scope_frame_uses_active_runtime_session() {
    let mut registers = Registers::new();
    registers.set_live_scope_session(Some(LiveScopeSession::new()));

    let mut frame = LiveScopeFrame::new();
    frame.insert(KString::from_ref("item"), &Value::string("outer"));
    let guard = push_live_scope_frame(&mut registers, frame);

    let session = registers.live_scope_session().as_ref().unwrap();
    assert_eq!(session.find_root("item").map(text), Some("outer".into()));
    assert_eq!(session.depth(), 1);

    guard.release(&mut registers);
    let session = registers.live_scope_session().as_ref().unwrap();
    assert_eq!(session.depth(), 0);
}

#[test]
fn push_live_scope_frame_without_session_pushes_nothing() {
    let mut registers = Registers::new();
    let frame = LiveScopeFrame::new();
    let guard = push_live_scope_frame(&mut registers, frame);
    assert!(registers.live_scope_session().is_none());
    guard.release(&mut registers);
    assert!(registers.live_scope_session().is_none());
}

#[test]
fn rendered_bytes_register_tracks_unreported_deltas_and_scope_resets() {
    let mut register = RenderedBytesRegister::default();

    register.add(5);
    assert_eq!(register.take_unreported_bytes(register.bytes()), 5);

    register.add(3);
    assert_eq!(register.take_unreported_bytes(register.bytes()), 3);

    register.add(4);
    register.clear_reported_baseline();
    assert_eq!(register.bytes(), 12);
    assert_eq!(register.take_unreported_bytes(register.bytes()), 0);

    register.add(2);
    assert_eq!(register.take_unreported_bytes(register.bytes()), 2);

    register.reset();
    assert_eq!(register.bytes(), 0);
    assert_eq!(register.take_unreported_bytes(register.bytes()), 0);
}

#[test]
fn render_tag_scope_depth_tracks_guards() {
    let mut registers = Registers::new();
    assert!(!registers.in_render_tag_scope());
    let outer = registers.enter_render_tag_scope();
    let inner = registers.enter_render_tag_scope();
    assert!(registers.in_render_tag_scope());
    inner.release(&mut registers);
    assert!(registers.in_render_tag_scope());
    outer.release(&mut registers);
    assert!(!registers.in_render_tag_scope());
}

#[test]
fn policy_limits_apply_through_registers() {
    let mut registers = Registers::new();
    assert!(increment_assign_bytes(&mut registers, 1_000).is_ok());

    let mut config = ProdPolicyConfig::default_config();
    config.max_assign_bytes = Some(10);
    config.max_depth = Some(1);
    install_prod_policy(&mut registers, config);

    assert!(increment_assign_bytes(&mut registers, 10).is_ok());
    let err = increment_assign_bytes(&mut registers, 1).unwrap_err();
    assert_eq!(
        err.to_string(),
        "liquid: Assign limit exceeded\n  with:\n    limit=10\n    actual=11\n"
    );

    let guard = enter_render_scope(&mut registers).unwrap();
    assert!(enter_render_scope(&mut registers).is_err());
    guard.release(&mut registers);
    assert!(enter_render_scope(&mut registers).is_ok());

    assert!(take_render_errors(&mut registers).is_empty());
    let _ = ProdErrorMode::Strict;
}

#[test]
fn conformance_policy_caps_nesting_at_a_hundred() {
    let mut p = RubyConformancePolicy::shared(true, false);
    assert!(p.strict_variables());
    assert!(!p.strict_filters());
    for _ in 0..100 {
        assert!(p.enter_scope().is_ok());
    }
    let e = p.enter_scope().unwrap_err();
    assert_eq!(e.message(), "stack level too deep");
    p.leave_scope();
    assert!(p.enter_scope().is_ok());
    assert_eq!(p.assign_resource_cost(&Value::string("abcd")), 4);
}

#[test]
fn filters_dispatch_by_registry_and_strictness() {
    assert_eq!(filter_dispatch(true, true, None), FilterDispatch::Fallback);
    assert_eq!(filter_dispatch(false, true, Some(false)), FilterDispatch::Registry);
    assert_eq!(filter_dispatch(false, false, Some(false)), FilterDispatch::PassInput);
    assert_eq!(filter_dispatch(false, false, Some(true)), FilterDispatch::Registry);
    assert_eq!(filter_dispatch(false, false, None), FilterDispatch::Registry);
}

#[test]
fn assigns_are_charged_before_they_bind() {
    let mut registers = Registers::new();
    let mut config = ProdPolicyConfig::default_config();
    config.max_assign_bytes = Some(5);
    install_prod_policy(&mut registers, config);

    let b = commit_assign(&mut registers, AssignedSource::Range(1, 3)).ok().unwrap();
    assert!(matches!(b, AssignBinding::Range(1, 3)));

    let copied = AssignedSource::Evaluated {
        value: Value::string("ignored"),
        copied: Some((2, 4)),
        aliased: false,
    };
    assert!(matches!(commit_assign(&mut registers, copied).ok().unwrap(), AssignBinding::Range(2, 4)));

    let alias = AssignedSource::Evaluated { value: Value::string("x"), copied: None, aliased: true };
    assert!(matches!(commit_assign(&mut registers, alias).ok().unwrap(), AssignBinding::Unchanged));

    // "ab" costs two: 3 + 2 = 5 stays within the limit.
    let small = AssignedSource::Evaluated { value: Value::string("ab"), copied: None, aliased: false };
    match commit_assign(&mut registers, small).ok().unwrap() {
        AssignBinding::Value(v) => assert_eq!(v.as_scalar().unwrap().to_kstr().as_str(), "ab"),
        _ => panic!("expected the value"),
    }

    let over = AssignedSource::Evaluated { value: Value::string("c"), copied: None, aliased: false };
    let err = commit_assign(&mut registers, over).err().unwrap();
    assert_eq!(
        err.to_string(),
        "liquid: Assign limit exceeded\n  with:\n    limit=5\n    actual=6\n"
    );
}
