use liquid_verified::find::PathElement;
use liquid_verified::kstring::KString;
use liquid_verified::registers::install_prod_policy;
use liquid_verified::stack::{
    Runtime, RuntimeBuilder, RuntimeCore, SandboxedStackFrame, StackFrame,
};
use liquid_verified::value::{Object, Scalar, Value};

fn object(entries: &[(&str, Value)]) -> Object {
    let mut o = Object::new();
    for (k, v) in entries {
        o.insert(KString::from_ref(k), v.clone());
    }
    o
}

fn path(name: &str) -> Vec<PathElement> {
    vec![PathElement::dot(Scalar::from_str(name))]
}

#[test]
fn test_opaque_stack_frame_try_get() {
    let globals = object(&[("a", Value::integer(1))]);
    let runtime = RuntimeBuilder::new().set_globals(globals).build();
    let opaque_stack_frame = SandboxedStackFrame::new(runtime, object(&[("b", Value::integer(2))]));

    assert!(opaque_stack_frame.try_get(&path("a")).is_none());
    assert!(opaque_stack_frame.try_get(&path("b")).is_some());

    let stack_frame = StackFrame::new(opaque_stack_frame, object(&[("c", Value::integer(1))]));

    assert!(stack_frame.try_get(&path("a")).is_none());
    assert!(stack_frame.try_get(&path("b")).is_some());
    assert!(stack_frame.try_get(&path("c")).is_some());
}

#[test]
fn test_opaque_stack_frame_get() {
    let globals = object(&[("a", Value::integer(1))]);
    let runtime = RuntimeBuilder::new().set_globals(globals).build();
    let opaque_stack_frame = SandboxedStackFrame::new(runtime, object(&[("b", Value::integer(2))]));

    assert!(opaque_stack_frame.get(&path("a")).is_err());
    assert!(opaque_stack_frame.get(&path("b")).is_ok());

    let stack_frame = StackFrame::new(opaque_stack_frame, object(&[("c", Value::integer(1))]));

    assert!(stack_frame.get(&path("a")).is_err());
    assert!(stack_frame.get(&path("b")).is_ok());
    assert!(stack_frame.get(&path("c")).is_ok());
}

#[test]
fn mask_variables() {
    let mut rt = RuntimeBuilder::new().build();
    rt.set_global(KString::from_ref("test"), Value::integer(42));
    let got = rt.get(&path("test")).unwrap().into_owned();
    assert!(matches!(got, Value::Scalar(Scalar::Integer(42))));

    let new_scope = StackFrame::new(rt, object(&[("test", Value::integer(3))]));
    let got = new_scope.get(&path("test")).unwrap().into_owned();
    assert!(matches!(got, Value::Scalar(Scalar::Integer(3))));

    let rt = new_scope.into_parent();
    let got = rt.get(&path("test")).unwrap().into_owned();
    assert!(matches!(got, Value::Scalar(Scalar::Integer(42))));
}

#[test]
fn global_variables() {
    let rt = RuntimeBuilder::new().build();
    let mut new_scope = StackFrame::new(rt, object(&[("test", Value::integer(3))]));
    new_scope.set_global(KString::from_ref("global"), Value::string("some value"));
    let rt = new_scope.into_parent();
    let got = rt.get(&path("global")).unwrap().into_owned();
    assert_eq!(
        got.as_scalar().unwrap().to_kstr().as_str(),
        "some value"
    );
}

#[test]
fn unknown_variable_is_an_error_unless_lenient() {
    let rt = RuntimeBuilder::new().build();
    let err = match rt.get(&path("missing")) {
        Ok(_) => panic!("expected an error"),
        Err(e) => e,
    };
    assert_eq!(
        err.to_string(),
        "liquid: Unknown variable\n  with:\n    requested variable=missing\n"
    );
    assert!(rt.try_get(&path("missing")).is_none());

    let mut core = RuntimeCore::new();
    let mut registers = liquid_verified::registers::Registers::new();
    let mut config = liquid_verified::policy::ProdPolicyConfig::default_config();
    config.strict_variables = false;
    install_prod_policy(&mut registers, config);
    core = RuntimeCore::with_registers(registers);
    let got = core.get(&path("missing")).unwrap().into_owned();
    assert!(got.is_nil());
}

#[test]
fn counters_are_separate_from_globals() {
    let mut rt = RuntimeBuilder::new()
        .set_globals(object(&[("port", Value::integer(10))]))
        .build();
    assert!(rt.get_index("port").is_none());
    rt.set_index(KString::from_ref("port"), Value::integer(-1));
    assert!(matches!(rt.get_index("port"), Some(Value::Scalar(Scalar::Integer(-1)))));
    let got = rt.get(&path("port")).unwrap().into_owned();
    assert!(matches!(got, Value::Scalar(Scalar::Integer(-1))));
    rt.set_global(KString::from_ref("port"), Value::integer(9));
    let got = rt.get(&path("port")).unwrap().into_owned();
    assert!(matches!(got, Value::Scalar(Scalar::Integer(9))));
}

#[test]
fn frame_names_fall_back_to_parent() {
    let rt = RuntimeBuilder::new().build();
    assert!(rt.name().is_none());
    let named = StackFrame::new(rt, Object::new()).with_name(KString::from_ref("outer"));
    let inner = StackFrame::new(named, Object::new());
    assert_eq!(inner.name().unwrap().as_str(), "outer");
}

fn names(roots: Vec<KString>) -> Vec<String> {
    let mut v: Vec<String> = roots.iter().map(|k| k.as_str().to_string()).collect();
    v.sort();
    v
}

#[test]
fn test_opaque_stack_frame_roots() {
    let globals = object(&[("a", Value::integer(1))]);
    let runtime = RuntimeBuilder::new().set_globals(globals).build();
    let opaque_stack_frame = SandboxedStackFrame::new(runtime, object(&[("b", Value::integer(2))]));
    let roots = names(opaque_stack_frame.roots());

    // Testing that the roots are not copied from the parent
    assert!(!roots.contains(&"a".to_string()));
    assert!(roots.contains(&"b".to_string()));
}

#[test]
fn roots_gather_every_frame_once() {
    let globals = object(&[("a", Value::integer(1)), ("b", Value::integer(2))]);
    let runtime = RuntimeBuilder::new().set_globals(globals).build();
    let frame = StackFrame::new(runtime, object(&[("b", Value::integer(3)), ("c", Value::Nil)]));
    assert_eq!(names(frame.roots()), vec!["a", "b", "c"]);
    assert!(RuntimeCore::new().roots().is_empty());
}
