use liquid_verified::expression::{Expression, Variable};
use liquid_verified::kstring::KString;
use liquid_verified::stack::{Runtime, RuntimeBuilder, StackFrame};
use liquid_verified::value::{Object, Scalar, Value};

fn parse_float(s: &str) -> Option<i64> {
    s.parse::<f64>().ok().map(|f| f as i64)
}

fn object(entries: Vec<(&str, Value)>) -> Object {
    let mut o = Object::new();
    for (k, v) in entries {
        o.insert(KString::from_ref(k), v);
    }
    o
}

fn text(v: &Value) -> String {
    v.as_scalar().unwrap().to_kstr().as_str().to_string()
}

#[test]
fn identifier_path_array_index() {
    let globals = object(vec![("test_a", Value::array(vec![Value::string("test")]))]);
    let mut var = Variable::with_literal(Scalar::from_str("test_a"));
    var.extend(vec![Expression::with_literal(Scalar::Integer(0))]);

    let runtime = RuntimeBuilder::new().build();
    let runtime = StackFrame::new(runtime, globals);
    let actual = var.evaluate(&runtime, &parse_float).ok().unwrap();
    let actual = runtime.get(actual.as_slice()).ok().unwrap().into_owned();
    assert_eq!(text(&actual), "test");
}

#[test]
fn identifier_path_array_index_negative() {
    let globals = object(vec![(
        "test_a",
        Value::array(vec![Value::string("test1"), Value::string("test2")]),
    )]);
    let mut var = Variable::with_literal(Scalar::from_str("test_a"));
    var.extend(vec![Expression::with_literal(Scalar::Integer(-1))]);

    let runtime = RuntimeBuilder::new().build();
    let runtime = StackFrame::new(runtime, globals);
    let actual = var.evaluate(&runtime, &parse_float).ok().unwrap();
    let actual = runtime.get(actual.as_slice()).ok().unwrap().into_owned();
    assert_eq!(text(&actual), "test2");
}

#[test]
fn identifier_path_object() {
    let item = Value::Object(object(vec![("test_h", Value::integer(5))]));
    let globals = object(vec![("test_a", Value::array(vec![item]))]);
    let mut var = Variable::with_literal(Scalar::from_str("test_a"));
    var.extend(vec![
        Expression::with_literal(Scalar::Integer(0)),
        Expression::with_literal(Scalar::from_str("test_h")),
    ]);

    let runtime = RuntimeBuilder::new().build();
    let runtime = StackFrame::new(runtime, globals);
    let actual = var.evaluate(&runtime, &parse_float).ok().unwrap();
    let actual = runtime.get(actual.as_slice()).ok().unwrap().into_owned();
    assert!(matches!(actual, Value::Scalar(Scalar::Integer(5))));
}

#[test]
fn expression_root_lookup() {
    let globals = object(vec![
        ("b", Value::string("c")),
        ("a", Value::Object(object(vec![("c", Value::string("result"))]))),
    ]);
    let mut var = Variable::with_literal(Scalar::from_str("a"));
    var.extend(vec![Expression::Variable(Variable::with_expression(
        Expression::with_literal(Scalar::from_str("b")),
    ))]);

    let runtime = RuntimeBuilder::new().build();
    let runtime = StackFrame::new(runtime, globals);
    let actual = var.evaluate(&runtime, &parse_float).ok().unwrap();
    let actual = runtime.get(actual.as_slice()).ok().unwrap().into_owned();
    assert_eq!(text(&actual), "result");
}

#[test]
fn expression_range_propagates_invalid_integer_errors() {
    let runtime = RuntimeBuilder::new().build();
    let expression = Expression::Range(Box::new((
        Expression::Literal(Value::float(1.5f64.to_bits(), "1.5")),
        Expression::with_literal(Scalar::Integer(3)),
    )));

    let err = match expression.evaluate(&runtime, &parse_float) {
        Ok(_) => panic!("expected an error"),
        Err(e) => e,
    };
    assert_eq!(err.to_string(), "liquid: invalid integer\n");
}

#[test]
fn expression_range_truncates_numeric_strings() {
    let runtime = RuntimeBuilder::new().build();
    let expression = Expression::Range(Box::new((
        Expression::Literal(Value::string("3.14")),
        Expression::with_literal(Scalar::Integer(5)),
    )));

    let value = expression.evaluate(&runtime, &parse_float).ok().unwrap();
    assert_eq!(value.render(), "3..5");
    let items = value.into_owned();
    assert_eq!(items.as_array().unwrap().len(), 3);
}

#[test]
fn non_scalar_index_is_reported_with_its_source() {
    let globals = object(vec![("a", Value::array(vec![Value::integer(1)]))]);
    let runtime = StackFrame::new(RuntimeBuilder::new().build(), globals);
    let mut var = Variable::with_literal(Scalar::from_str("a"));
    var.extend(vec![Expression::Literal(Value::array(vec![
        Value::integer(1),
        Value::string("x"),
    ]))]);
    let err = match var.evaluate(&runtime, &parse_float) {
        Ok(_) => panic!("expected an error"),
        Err(e) => e,
    };
    assert_eq!(err.to_string(), "liquid: Expected scalar, found `[1, x, ]`\n");
    assert!(var.try_evaluate(&runtime, &parse_float).is_none());

    let ranged = Variable::with_expression(Expression::Range(Box::new((
        Expression::with_literal(Scalar::Integer(1)),
        Expression::with_literal(Scalar::Integer(2)),
    ))));
    let err = match ranged.evaluate(&runtime, &parse_float) {
        Ok(_) => panic!("expected an error"),
        Err(e) => e,
    };
    assert_eq!(err.to_string(), "liquid: Expected scalar, found `(1..2)`\n");
}

#[test]
fn try_evaluate_is_lenient_about_missing_variables() {
    let runtime = RuntimeBuilder::new().build();
    let missing = Expression::Variable(Variable::with_literal(Scalar::from_str("missing")));
    assert!(missing.try_evaluate(&runtime, &parse_float).is_none());
    assert!(missing.evaluate(&runtime, &parse_float).is_err());
    let literal = Expression::with_literal(Scalar::Integer(7));
    assert!(matches!(literal.into_literal(), Some(Value::Scalar(Scalar::Integer(7)))));
}

#[test]
fn push_literal_extends_the_evaluated_path() {
    let inner = Value::Object(object(vec![("b", Value::integer(5))]));
    let globals = object(vec![("a", inner)]);
    let runtime = RuntimeBuilder::new().build();
    let runtime = StackFrame::new(runtime, globals);

    let var = Variable::with_literal(Scalar::from_str("a"));
    let before = var.evaluate(&runtime, &parse_float).ok().unwrap();
    let var = var.push_literal(Scalar::from_str("b"));
    let after = var.evaluate(&runtime, &parse_float).ok().unwrap();
    assert_eq!(after.as_slice().len(), before.as_slice().len() + 1);
    let found = runtime.get(after.as_slice()).ok().unwrap().into_owned();
    assert!(matches!(found, Value::Scalar(Scalar::Integer(5))));

    let missing = Variable::with_literal(Scalar::from_str("nope")).push_literal(Scalar::from_str("b"));
    let path = missing.try_evaluate(&runtime, &parse_float).unwrap();
    assert_eq!(path.as_slice().len(), 2);
    assert!(runtime.try_get(path.as_slice()).is_none());
}
