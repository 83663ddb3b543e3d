use liquid_verified::error::Error;
use liquid_verified::find::{find, try_find, PathAccess, PathElement};
use liquid_verified::kstring::KString;
use liquid_verified::policy::{legacy_assign_score, prod_assign_resource_cost};
use liquid_verified::range::{range_bound_to_i64, AssignedRangeValue};
use liquid_verified::value::{Object, Scalar, Value};

fn parse_float(s: &str) -> Option<i64> {
    s.parse::<f64>().ok().map(|f| f as i64)
}

fn object(entries: &[(&str, Value)]) -> Value {
    let mut o = Object::new();
    for (k, v) in entries {
        o.insert(KString::from_ref(k), v.clone());
    }
    Value::Object(o)
}

#[test]
fn legacy_assign_score_matches_shopify_assign_semantics() {
    assert_eq!(1, legacy_assign_score(&Value::integer(123)));
    assert_eq!(3, legacy_assign_score(&Value::string("123")));
    assert_eq!(1, legacy_assign_score(&Value::array(vec![])));
    assert_eq!(2, legacy_assign_score(&Value::array(vec![Value::integer(123)])));
    assert_eq!(
        6,
        legacy_assign_score(&Value::array(vec![Value::integer(123), Value::string("abcd")]))
    );
    assert_eq!(1, legacy_assign_score(&object(&[])));
    assert_eq!(5, legacy_assign_score(&object(&[("int", Value::integer(123))])));
    assert_eq!(
        12,
        legacy_assign_score(&object(&[
            ("int", Value::integer(123)),
            ("str", Value::string("abcd"))
        ]))
    );
}

#[test]
fn production_assign_cost_preserves_current_scalar_string_lengths() {
    assert_eq!(3, prod_assign_resource_cost(&Value::integer(123)));
    assert_eq!(3, prod_assign_resource_cost(&Value::string("123")));
}

#[test]
fn production_assign_cost_counts_keys_and_nesting() {
    assert_eq!(1, prod_assign_resource_cost(&Value::Nil));
    assert_eq!(
        1 + 3 + 2,
        prod_assign_resource_cost(&object(&[("int", Value::integer(12))]))
    );
    assert_eq!(
        1 + 4 + 1,
        prod_assign_resource_cost(&Value::array(vec![Value::string("abcd"), Value::Nil]))
    );
}

#[test]
fn range_bound_accepts_nil_and_strings_like_ruby_liquid() {
    assert_eq!(range_bound_to_i64(&Value::Nil, &parse_float).unwrap(), 0);
    assert_eq!(
        range_bound_to_i64(&Value::string("invalid integer"), &parse_float).unwrap(),
        0
    );
    assert_eq!(range_bound_to_i64(&Value::string("3.14"), &parse_float).unwrap(), 3);
    assert_eq!(range_bound_to_i64(&Value::string("4"), &parse_float).unwrap(), 4);
}

#[test]
fn range_bound_rejects_non_string_non_integer_scalars() {
    let err = range_bound_to_i64(&Value::float(1.5f64.to_bits(), "1.5"), &parse_float).unwrap_err();
    assert_eq!(err.to_string(), "liquid: invalid integer\n");
}

#[test]
fn range_bound_rejects_non_scalars() {
    let err = range_bound_to_i64(&object(&[]), &parse_float).unwrap_err();
    assert_eq!(err.to_string(), "liquid: invalid integer\n");
}

#[test]
fn assigned_range_value_materializes_lazily() {
    let mut value = AssignedRangeValue::new(1, 3);

    assert!(!value.is_materialized());
    assert_eq!(value.size(), 3);
    assert!(!value.is_materialized());
    assert_eq!(value.render(), "1..3");
    assert!(!value.is_materialized());

    assert_eq!(
        value
            .get(0)
            .map(|item| item.as_scalar().unwrap().to_kstr().as_str().to_string()),
        Some("1".into())
    );
    assert!(value.is_materialized());
}

#[test]
fn assigned_range_value_indexes_from_the_end_and_renders_source() {
    let mut value = AssignedRangeValue::new(-2, 2);
    assert_eq!(value.size(), 5);
    assert!(value.contains_key(-5));
    assert!(!value.contains_key(5));
    assert!(matches!(value.get(-1), Some(Value::Scalar(Scalar::Integer(2)))));
    assert!(value.get(-6).is_none());
    assert_eq!(value.source(), "(-2..2)");
    let empty = AssignedRangeValue::new(3, 1);
    assert_eq!(empty.size(), 0);
    let huge = AssignedRangeValue::new(i64::MIN, i64::MAX);
    assert_eq!(huge.size(), i64::MAX);
}

#[test]
fn test_size() {
    println!("String: {}", std::mem::size_of::<String>());
    println!("Box<str>: {}", std::mem::size_of::<Box<str>>());
    println!("Box<Box<str>>: {}", std::mem::size_of::<Box<Box<str>>>());
    println!("KString: {}", std::mem::size_of::<KString>());
}

#[test]
fn kstring_conversions_keep_text() {
    assert_eq!(KString::new().as_str(), "");
    assert_eq!(KString::from_ref("short").as_str(), "short");
    assert_eq!(
        KString::from_ref("a string longer than sixteen bytes").into_string(),
        "a string longer than sixteen bytes"
    );
    assert_eq!(KString::from_static("static").as_str(), "static");
    assert_eq!(&*KString::from_string("owned".to_string()).into_boxed_str(), "owned");
    assert_eq!(KString::from_boxed("boxed".into()).into_cow_str(), "boxed");
    assert_eq!(KString::from_ref("r").as_ref().as_str(), "r");
}

#[test]
fn error_display_lists_traces_and_context() {
    let err = Error::with_msg("boom")
        .context(KString::from_ref("key"), KString::from_ref("value"))
        .trace(KString::from_ref("outer"))
        .context(KString::from_ref("k2"), KString::from_ref("v2"));
    assert_eq!(
        err.to_string(),
        "liquid: boom\n  with:\n    key=value\nfrom: outer\n  with:\n    k2=v2\n"
    );
    assert_eq!(err.message(), "boom");
}

#[test]
fn find_follows_arrays_objects_and_reports_missing_indexes() {
    let data = object(&[(
        "a",
        Value::array(vec![object(&[("b", Value::integer(5))]), Value::integer(7)]),
    )]);
    let path = vec![
        PathElement::dot(Scalar::from_str("a")),
        PathElement::new(Scalar::Integer(0), PathAccess::Lookup),
        PathElement::dot(Scalar::from_str("b")),
    ];
    let got = try_find(&data, &path).unwrap().into_owned();
    assert!(matches!(got, Value::Scalar(Scalar::Integer(5))));

    let last = vec![
        PathElement::dot(Scalar::from_str("a")),
        PathElement::dot(Scalar::from_str("last")),
    ];
    assert!(matches!(
        try_find(&data, &last).unwrap().into_owned(),
        Value::Scalar(Scalar::Integer(7))
    ));
    let size = vec![
        PathElement::dot(Scalar::from_str("a")),
        PathElement::dot(Scalar::from_str("size")),
    ];
    assert!(matches!(
        try_find(&data, &size).unwrap().into_owned(),
        Value::Scalar(Scalar::Integer(2))
    ));

    let missing = vec![
        PathElement::dot(Scalar::from_str("a")),
        PathElement::new(Scalar::Integer(5), PathAccess::Lookup),
    ];
    assert!(try_find(&data, &missing).is_none());
    let err = match find(&data, &missing) {
        Ok(_) => panic!("expected an error"),
        Err(e) => e,
    };
    assert!(err.to_string().starts_with("liquid: Unknown index\n"));
}

#[test]
fn array_dot_access_still_supports_first() {
    let value = object(&[("items", Value::array(vec![Value::string("pass")]))]);
    let path = [
        PathElement::dot(Scalar::from_str("items")),
        PathElement::new(Scalar::from_str("first"), PathAccess::Dot),
    ];
    let actual = find(&value, &path).ok().unwrap().into_owned();
    assert_eq!(actual.as_scalar().unwrap().to_kstr().as_str(), "pass");
}

#[test]
fn array_bracket_string_does_not_alias_first() {
    let value = object(&[("items", Value::array(vec![Value::string("pass")]))]);
    let path = [
        PathElement::dot(Scalar::from_str("items")),
        PathElement::new(Scalar::from_str("first"), PathAccess::Lookup),
    ];
    assert!(try_find(&value, &path).is_none());
}

#[test]
fn try_find_along_joined_paths_is_two_steps() {
    let data = object(&[("a", object(&[("b", Value::array(vec![Value::integer(1), Value::integer(9)]))]))]);
    assert!(matches!(try_find(&data, &[]).unwrap().into_owned(), Value::Object(_)));

    let first = vec![PathElement::dot(Scalar::from_str("a"))];
    let second = vec![
        PathElement::dot(Scalar::from_str("b")),
        PathElement::new(Scalar::Integer(1), PathAccess::Lookup),
    ];
    let mut joined = first.iter().map(|e| e.copy()).collect::<Vec<_>>();
    joined.extend(second.iter().map(|e| e.copy()));

    let middle = try_find(&data, &first).unwrap().into_owned();
    let stepwise = try_find(&middle, &second).unwrap().into_owned();
    let direct = try_find(&data, &joined).unwrap().into_owned();
    assert!(matches!(stepwise, Value::Scalar(Scalar::Integer(9))));
    assert!(matches!(direct, Value::Scalar(Scalar::Integer(9))));

    let missing = vec![PathElement::dot(Scalar::from_str("zz"))];
    assert!(try_find(&data, &missing).is_none());
}
