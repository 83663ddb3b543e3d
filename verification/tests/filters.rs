use liquid_verified::filters::{
    ArrayToSentenceString, Pop, Push, Shift, Unshift, UrlDecode, UrlEncode,
};
use liquid_verified::value::Value;

fn text(v: &Value) -> String {
    v.as_scalar().unwrap().to_kstr().as_str().to_string()
}

fn texts(v: &Value) -> Vec<String> {
    v.as_array().unwrap().iter().map(text).collect()
}

fn cities(names: &[&str]) -> Value {
    Value::array(names.iter().map(|n| Value::string(n)).collect())
}

#[test]
fn unit_push() {
    let input = cities(&["Seattle", "Tacoma"]);
    let unit_result = Push.evaluate(&input, &Value::string("Spokane")).ok().unwrap();
    assert_eq!(texts(&unit_result), vec!["Seattle", "Tacoma", "Spokane"]);
}

#[test]
fn unit_pop() {
    let input = cities(&["Seattle", "Tacoma"]);
    let unit_result = Pop.evaluate(&input).ok().unwrap();
    assert_eq!(texts(&unit_result), vec!["Seattle"]);
}

#[test]
fn unit_pop_empty() {
    let input = cities(&[]);
    let unit_result = Pop.evaluate(&input).ok().unwrap();
    assert!(texts(&unit_result).is_empty());
}

#[test]
fn unit_unshift() {
    let input = cities(&["Seattle", "Tacoma"]);
    let unit_result = Unshift.evaluate(&input, &Value::string("Olympia")).ok().unwrap();
    assert_eq!(texts(&unit_result), vec!["Olympia", "Seattle", "Tacoma"]);
}

#[test]
fn unit_shift() {
    let input = cities(&["Seattle", "Tacoma"]);
    let unit_result = Shift.evaluate(&input).ok().unwrap();
    assert_eq!(texts(&unit_result), vec!["Tacoma"]);
}

#[test]
fn unit_shift_empty() {
    let input = cities(&[]);
    let unit_result = Shift.evaluate(&input).ok().unwrap();
    assert!(texts(&unit_result).is_empty());
}

#[test]
fn unit_array_to_sentence_string() {
    let input = cities(&["foo", "bar", "baz"]);
    let unit_result = ArrayToSentenceString.evaluate(&input, None).ok().unwrap();
    assert_eq!(text(&unit_result), "foo, bar, and baz");
}

#[test]
fn unit_array_to_sentence_string_two_elements() {
    let input = cities(&["foo", "bar"]);
    let unit_result = ArrayToSentenceString.evaluate(&input, None).ok().unwrap();
    assert_eq!(text(&unit_result), "foo, and bar");
}

#[test]
fn unit_array_to_sentence_string_one_element() {
    let input = cities(&["foo"]);
    let unit_result = ArrayToSentenceString.evaluate(&input, None).ok().unwrap();
    assert_eq!(text(&unit_result), "foo");
}

#[test]
fn unit_array_to_sentence_string_no_elements() {
    let input = cities(&[]);
    let unit_result = ArrayToSentenceString.evaluate(&input, None).ok().unwrap();
    assert_eq!(text(&unit_result), "");
}

#[test]
fn unit_array_to_sentence_string_custom_connector() {
    let input = cities(&["foo", "bar", "baz"]);
    let unit_result = ArrayToSentenceString.evaluate(&input, Some("or")).ok().unwrap();
    assert_eq!(text(&unit_result), "foo, bar, or baz");
}

#[test]
fn unit_url_encode() {
    assert_eq!(text(&UrlEncode.evaluate(&Value::string("foo bar"))), "foo%20bar");
    assert_eq!(
        text(&UrlEncode.evaluate(&Value::string("foo+1@example.com"))),
        "foo%2B1%40example.com"
    );
}

#[test]
fn unit_url_decode() {
    assert_eq!(
        text(&UrlDecode.evaluate(&Value::string("foo%20bar")).ok().unwrap()),
        "foo bar"
    );
    assert_eq!(
        text(&UrlDecode.evaluate(&Value::string("foo%2B1%40example.com")).ok().unwrap()),
        "foo+1@example.com"
    );
}

#[test]
fn array_filters_reject_scalars() {
    let input = Value::string("Seattle");
    assert!(Push.evaluate(&input, &Value::Nil).is_err());
    assert!(Pop.evaluate(&input).is_err());
    assert!(Shift.evaluate(&input).is_err());
    assert!(Unshift.evaluate(&input, &Value::Nil).is_err());
    assert!(ArrayToSentenceString.evaluate(&input, None).is_err());
}

#[test]
fn url_decode_turns_plus_into_space_and_rejects_bad_utf8() {
    assert_eq!(
        text(&UrlDecode.evaluate(&Value::string("a+b")).ok().unwrap()),
        "a b"
    );
    assert!(UrlDecode.evaluate(&Value::string("%FF")).is_err());
}

#[test]
fn url_encode_keeps_unreserved_characters() {
    assert_eq!(text(&UrlEncode.evaluate(&Value::string("a-b_c.d~e"))), "a-b_c.d%7Ee");
}

#[test]
fn url_decode_inverts_url_encode() {
    for s in ["foo bar", "a+b=c&d", "héllo wörld ✓", "%41", ""] {
        let encoded = UrlEncode.evaluate(&Value::string(s));
        let decoded = UrlDecode.evaluate(&encoded).ok().unwrap();
        assert_eq!(text(&decoded), s);
    }
}

#[test]
fn pop_undoes_push_and_shift_undoes_unshift() {
    let input = cities(&["Seattle", "Tacoma"]);
    let pushed = Push.evaluate(&input, &Value::string("Spokane")).ok().unwrap();
    let popped = Pop.evaluate(&pushed).ok().unwrap();
    assert_eq!(texts(&popped), vec!["Seattle", "Tacoma"]);
    let unshifted = Unshift.evaluate(&input, &Value::string("Olympia")).ok().unwrap();
    let shifted = Shift.evaluate(&unshifted).ok().unwrap();
    assert_eq!(texts(&shifted), vec!["Seattle", "Tacoma"]);
}
