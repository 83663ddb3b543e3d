//! Array filters (`push`, `pop`, `shift`, `unshift`,
//! `array_to_sentence_string`) and URL filters (`url_encode`).

use crate::error::{Error, ErrorModel, TraceModel};
use crate::kstring::KString;
use crate::render::{push_render, render_text};
use crate::value::{lemma_models_of, models_of, Value, ValueModel};
use vstd::prelude::*;

verus! {

/// `"Invalid input"`
pub open spec fn invalid_input_msg() -> Seq<char> {
    seq!['I', 'n', 'v', 'a', 'l', 'i', 'd', ' ', 'i', 'n', 'p', 'u', 't']
}

/// The error for a filter input of the wrong shape.
pub open spec fn invalid_input_model(cause: Seq<char>) -> ErrorModel {
    ErrorModel {
        msg: invalid_input_msg(),
        backtrace: seq![TraceModel { trace: None, context: seq![(seq!['c', 'a', 'u', 's', 'e'], cause)] }],
    }
}

/// The error for a filter argument of the wrong shape.
pub open spec fn invalid_argument_model(argument: Seq<char>, cause: Seq<char>) -> ErrorModel {
    ErrorModel {
        msg: seq!['I', 'n', 'v', 'a', 'l', 'i', 'd', ' ', 'a', 'r', 'g', 'u', 'm', 'e', 'n', 't'],
        backtrace: seq![
            TraceModel {
                trace: None,
                context: seq![
                    (seq!['a', 'r', 'g', 'u', 'm', 'e', 'n', 't'], argument),
                    (seq!['c', 'a', 'u', 's', 'e'], cause),
                ],
            },
        ],
    }
}

/// `"Array expected"`
pub open spec fn array_expected() -> Seq<char> {
    seq!['A', 'r', 'r', 'a', 'y', ' ', 'e', 'x', 'p', 'e', 'c', 't', 'e', 'd']
}

/// "Invalid input" with the given cause.
pub fn invalid_input(cause: &str) -> (r: Error)
    ensures
        r@ == invalid_input_model(cause@),
{
    let msg: &'static str = "Invalid input";
    let key: &'static str = "cause";
    proof {
        reveal_strlit("Invalid input");
        reveal_strlit("cause");
    }
    assert(msg@ =~= invalid_input_msg());
    assert(key@ =~= seq!['c', 'a', 'u', 's', 'e']);
    let e = Error::with_msg(msg).context(KString::from_static(key), KString::from_ref(cause));
    assert(e@.backtrace[0].context =~= invalid_input_model(cause@).backtrace[0].context);
    assert(e@.backtrace =~= invalid_input_model(cause@).backtrace);
    e
}

/// "Invalid argument" naming the argument and the cause.
pub fn invalid_argument(argument: &str, cause: &str) -> (r: Error)
    ensures
        r@ == invalid_argument_model(argument@, cause@),
{
    let msg: &'static str = "Invalid argument";
    let k1: &'static str = "argument";
    let k2: &'static str = "cause";
    proof {
        reveal_strlit("Invalid argument");
        reveal_strlit("argument");
        reveal_strlit("cause");
    }
    assert(msg@ =~= seq!['I', 'n', 'v', 'a', 'l', 'i', 'd', ' ', 'a', 'r', 'g', 'u', 'm', 'e', 'n', 't']);
    assert(k1@ =~= seq!['a', 'r', 'g', 'u', 'm', 'e', 'n', 't']);
    assert(k2@ =~= seq!['c', 'a', 'u', 's', 'e']);
    let e = Error::with_msg(msg).context(KString::from_static(k1), KString::from_ref(argument)).context(
        KString::from_static(k2),
        KString::from_ref(cause),
    );
    assert(e@.backtrace[0].context =~= invalid_argument_model(argument@, cause@).backtrace[0].context);
    assert(e@.backtrace =~= invalid_argument_model(argument@, cause@).backtrace);
    e
}

/// The "Array expected" input error.
fn array_expected_error() -> (r: Error)
    ensures
        r@ == invalid_input_model(array_expected()),
{
    let cause: &'static str = "Array expected";
    proof {
        reveal_strlit("Array expected");
    }
    assert(cause@ =~= array_expected());
    invalid_input(cause)
}

/// The elements of an array input, copied.
fn array_items(input: &Value) -> (r: Result<Vec<Value>, Error>)
    ensures
        match input@ {
            ValueModel::Array(a) => r matches Ok(v) && models_of(v@) == a,
            _ => r matches Err(e) && e@ == invalid_input_model(array_expected()),
        },
{
    match input.deep_clone().into_array() {
        Some(a) => Ok(a),
        None => Err(array_expected_error()),
    }
}

/// The `push` filter: appends an element to an array.
#[derive(Debug, Clone, Copy)]
pub struct Push;

/// The `pop` filter: removes the last element of an array.
#[derive(Debug, Clone, Copy)]
pub struct Pop;

/// The `shift` filter: removes the first element of an array.
#[derive(Debug, Clone, Copy)]
pub struct Shift;

/// The `unshift` filter: puts an element in front of an array.
#[derive(Debug, Clone, Copy)]
pub struct Unshift;

/// The `array_to_sentence_string` filter: lists the elements separated by
/// commas, with a connector before the last one.
#[derive(Debug, Clone, Copy)]
pub struct ArrayToSentenceString;

/// `a` with `x` appended.
pub open spec fn pushed(a: Seq<ValueModel>, x: ValueModel) -> Seq<ValueModel> {
    a.push(x)
}

/// `a` without its last element, if it has one.
pub open spec fn popped(a: Seq<ValueModel>) -> Seq<ValueModel> {
    if a.len() > 0 {
        a.drop_last()
    } else {
        a
    }
}

/// `a` without its first element, if it has one.
pub open spec fn shifted(a: Seq<ValueModel>) -> Seq<ValueModel> {
    if a.len() > 0 {
        a.drop_first()
    } else {
        a
    }
}

/// `a` with `x` put in front.
pub open spec fn unshifted(a: Seq<ValueModel>, x: ValueModel) -> Seq<ValueModel> {
    seq![x] + a
}

/// `pop` undoes `push`.
pub proof fn law_pop_undoes_push(a: Seq<ValueModel>, x: ValueModel)
    ensures
        popped(pushed(a, x)) == a,
{
    assert(a.push(x).drop_last() =~= a);
}

/// `shift` undoes `unshift`.
pub proof fn law_shift_undoes_unshift(a: Seq<ValueModel>, x: ValueModel)
    ensures
        shifted(unshifted(a, x)) == a,
{
    assert((seq![x] + a).drop_first() =~= a);
}

impl Push {
    /// Appends `element` to the array `input`.
    pub fn evaluate(&self, input: &Value, element: &Value) -> (r: Result<Value, Error>)
        ensures
            match input@ {
                ValueModel::Array(a) => r matches Ok(v) && v@ == ValueModel::Array(pushed(a, element@)),
                _ => r matches Err(e) && e@ == invalid_input_model(array_expected()),
            },
    {
        let mut items = match array_items(input) {
            Ok(a) => a,
            Err(e) => {
                return Err(e);
            },
        };
        let ghost before = items@;
        let x = element.deep_clone();
        items.push(x);
        proof {
            lemma_models_of(before);
            lemma_models_of(items@);
            assert(models_of(items@) =~= models_of(before).push(element@));
        }
        Ok(Value::Array(items))
    }
}

impl Pop {
    /// Removes the last element of the array `input`, if any.
    pub fn evaluate(&self, input: &Value) -> (r: Result<Value, Error>)
        ensures
            match input@ {
                ValueModel::Array(a) => r matches Ok(v) && v@ == ValueModel::Array(popped(a)),
                _ => r matches Err(e) && e@ == invalid_input_model(array_expected()),
            },
    {
        let mut items = match array_items(input) {
            Ok(a) => a,
            Err(e) => {
                return Err(e);
            },
        };
        let ghost before = items@;
        if items.len() > 0 {
            items.pop();
            proof {
                lemma_models_of(before);
                lemma_models_of(items@);
                assert(models_of(items@) =~= models_of(before).drop_last());
            }
        }
        Ok(Value::Array(items))
    }
}

impl Shift {
    /// Removes the first element of the array `input`, if any.
    pub fn evaluate(&self, input: &Value) -> (r: Result<Value, Error>)
        ensures
            match input@ {
                ValueModel::Array(a) => r matches Ok(v) && v@ == ValueModel::Array(shifted(a)),
                _ => r matches Err(e) && e@ == invalid_input_model(array_expected()),
            },
    {
        let mut items = match array_items(input) {
            Ok(a) => a,
            Err(e) => {
                return Err(e);
            },
        };
        let ghost before = items@;
        if items.len() > 0 {
            items.remove(0);
            proof {
                lemma_models_of(before);
                lemma_models_of(items@);
                assert(models_of(items@) =~= models_of(before).drop_first());
            }
        }
        Ok(Value::Array(items))
    }
}

impl Unshift {
    /// Puts `element` in front of the array `input`.
    pub fn evaluate(&self, input: &Value, element: &Value) -> (r: Result<Value, Error>)
        ensures
            match input@ {
                ValueModel::Array(a) => r matches Ok(v) && v@ == ValueModel::Array(
                    unshifted(a, element@),
                ),
                _ => r matches Err(e) && e@ == invalid_input_model(array_expected()),
            },
    {
        let mut items = match array_items(input) {
            Ok(a) => a,
            Err(e) => {
                return Err(e);
            },
        };
        let ghost before = items@;
        let x = element.deep_clone();
        items.insert(0, x);
        proof {
            lemma_models_of(before);
            lemma_models_of(items@);
            assert(models_of(items@) =~= seq![element@] + models_of(before));
        }
        Ok(Value::Array(items))
    }
}

/// `, a, b` for the rendered items of `s`.
pub open spec fn comma_items(s: Seq<ValueModel>) -> Seq<char>
    decreases s.len(),
{
    if s.len() == 0 {
        Seq::empty()
    } else {
        comma_items(s.drop_last()) + seq![',', ' '] + render_text(s.last())
    }
}

/// The sentence for `items`: the first item, `, item` for each middle one
/// and `, connector last` for the last one.
pub open spec fn sentence(items: Seq<ValueModel>, connector: Seq<char>) -> Seq<char> {
    if items.len() == 0 {
        Seq::empty()
    } else if items.len() == 1 {
        render_text(items[0])
    } else {
        render_text(items[0]) + comma_items(items.subrange(1, items.len() - 1)) + seq![',', ' ']
            + connector + seq![' '] + render_text(items.last())
    }
}

proof fn lemma_comma_items_front(x: ValueModel, t: Seq<ValueModel>)
    ensures
        comma_items(seq![x] + t) == seq![',', ' '] + render_text(x) + comma_items(t),
    decreases t.len(),
{
    let s = seq![x] + t;
    if t.len() == 0 {
        assert(s.drop_last() =~= Seq::<ValueModel>::empty());
        assert(s.last() == x);
        assert(comma_items(s.drop_last()) =~= Seq::<char>::empty());
        assert(comma_items(s) =~= seq![',', ' '] + render_text(x));
        assert(comma_items(t) =~= Seq::<char>::empty());
    } else {
        assert(s.drop_last() =~= seq![x] + t.drop_last());
        assert(s.last() == t.last());
        lemma_comma_items_front(x, t.drop_last());
    }
}

/// The sentence lists the rendered elements in array order: nothing for no
/// element, the element alone for one, `a, connector b` for two, and for more
/// the first element, `, ` and the sentence of the rest.
pub proof fn law_sentence_in_order(items: Seq<ValueModel>, connector: Seq<char>)
    ensures
        items.len() == 0 ==> sentence(items, connector) == Seq::<char>::empty(),
        items.len() == 1 ==> sentence(items, connector) == render_text(items[0]),
        items.len() == 2 ==> sentence(items, connector) == render_text(items[0]) + seq![',', ' ']
            + connector + seq![' '] + render_text(items[1]),
        items.len() >= 3 ==> sentence(items, connector) == render_text(items[0]) + seq![',', ' ']
            + sentence(items.drop_first(), connector),
{
    let n = items.len();
    if n == 2 {
        assert(items.subrange(1, 1).len() == 0);
        assert(comma_items(items.subrange(1, 1)) =~= Seq::<char>::empty());
        assert(sentence(items, connector) =~= render_text(items[0]) + seq![',', ' '] + connector
            + seq![' '] + render_text(items[1]));
    } else if n >= 3 {
        let rest = items.drop_first();
        let mid = items.subrange(1, n - 1);
        let rmid = rest.subrange(1, rest.len() - 1);
        assert(mid =~= seq![items[1]] + rmid);
        assert(rest[0] == items[1]);
        assert(rest.last() == items.last());
        lemma_comma_items_front(items[1], rmid);
        assert(sentence(items, connector) =~= render_text(items[0]) + seq![',', ' ']
            + sentence(rest, connector));
    }
}

impl ArrayToSentenceString {
    /// Lists the elements of the array `input` as a sentence; the connector
    /// defaults to `and`.
    pub fn evaluate(&self, input: &Value, connector: Option<&str>) -> (r: Result<Value, Error>)
        ensures
            match input@ {
                ValueModel::Array(a) => r matches Ok(v) && v@ == ValueModel::Scalar(
                    crate::value::ScalarModel::Str(
                        sentence(
                            a,
                            match connector {
                                Some(c) => c@,
                                None => seq!['a', 'n', 'd'],
                            },
                        ),
                    ),
                ),
                _ => r matches Err(e) && e@ == invalid_input_model(array_expected()),
            },
    {
        let conn: &str = match connector {
            Some(c) => c,
            None => {
                proof {
                    reveal_strlit("and");
                }
                "and"
            },
        };
        let ghost cm = conn@;
        assert(cm =~= match connector {
            Some(c) => c@,
            None => seq!['a', 'n', 'd'],
        });
        let items = match input.as_array() {
            Some(a) => a,
            None => {
                return Err(array_expected_error());
            },
        };
        proof {
            lemma_models_of(items@);
        }
        let ghost ms = models_of(items@);
        let n = items.len();
        let mut out: Vec<char> = Vec::new();
        if n > 0 {
            push_render(&mut out, &items[0]);
        }
        if n >= 2 {
            let mut i: usize = 1;
            assert(ms.subrange(1, 1).len() == 0);
            while i < n - 1
                invariant
                    1 <= i <= n - 1,
                    n == items@.len(),
                    n >= 2,
                    ms == models_of(items@),
                    ms.len() == n,
                    forall|j: int| 0 <= j < n ==> #[trigger] ms[j] == items@[j]@,
                    out@ == render_text(ms[0]) + comma_items(ms.subrange(1, i as int)),
                decreases n - 1 - i,
            {
                out.push(',');
                out.push(' ');
                push_render(&mut out, &items[i]);
                proof {
                    let t = ms.subrange(1, i + 1);
                    assert(t.drop_last() =~= ms.subrange(1, i as int));
                    assert(t.last() == ms[i as int]);
                }
                i = i + 1;
            }
            out.push(',');
            out.push(' ');
            crate::text::push_str(&mut out, conn);
            out.push(' ');
            push_render(&mut out, &items[n - 1]);
            assert(out@ =~= sentence(ms, cm));
        } else if n == 1 {
            assert(out@ =~= sentence(ms, cm));
        } else {
            assert(out@ =~= sentence(ms, cm));
        }
        let s = crate::text::string_of(out.as_slice());
        Ok(Value::from_string(s))
    }
}

/// `String::from_utf8`: the string whose UTF-8 bytes are `bytes`; it fails
/// exactly when `bytes` is not valid UTF-8.
#[verifier::external_body]
fn string_from_utf8(bytes: Vec<u8>) -> (r: Option<String>)
    ensures
        r is Some <==> vstd::utf8::valid_utf8(bytes@),
        r matches Some(s) ==> vstd::utf8::encode_utf8(s@) == bytes@,
{
    String::from_utf8(bytes).ok()
}

/// Bytes kept as they are by `url_encode`: ASCII letters, digits, `-`, `.`
/// and `_`.
pub open spec fn url_safe(b: u8) -> bool {
    (48 <= b <= 57) || (65 <= b <= 90) || (97 <= b <= 122) || b == 45 || b == 46 || b == 95
}

/// Upper-case hexadecimal digit of `n < 16`.
pub open spec fn hex_digit(n: int) -> char {
    if n < 10 {
        (48 + n) as char
    } else {
        (55 + n) as char
    }
}

/// The encoding of one byte: itself when safe, `%XX` otherwise.
pub open spec fn encode_byte(b: u8) -> Seq<char> {
    if url_safe(b) {
        seq![b as char]
    } else {
        seq!['%', hex_digit(b as int / 16), hex_digit(b as int % 16)]
    }
}

/// Percent-encoding of a byte sequence.
pub open spec fn url_encode_bytes(bs: Seq<u8>) -> Seq<char>
    decreases bs.len(),
{
    if bs.len() == 0 {
        Seq::empty()
    } else {
        url_encode_bytes(bs.drop_last()) + encode_byte(bs.last())
    }
}

/// The value of an ASCII hexadecimal digit.
pub open spec fn hex_value(b: u8) -> Option<u8> {
    if 48 <= b <= 57 {
        Some((b - 48) as u8)
    } else if 65 <= b <= 70 {
        Some((b - 55) as u8)
    } else if 97 <= b <= 102 {
        Some((b - 87) as u8)
    } else {
        None
    }
}

/// The byte of the hexadecimal digit for `n` (below 16): `0`-`9`, then
/// `A`-`F` or `a`-`f`.
pub open spec fn hex_digit_byte(n: int, upper: bool) -> u8 {
    if n < 10 {
        (48 + n) as u8
    } else if upper {
        (55 + n) as u8
    } else {
        (87 + n) as u8
    }
}

/// Percent-decoding turns `%` and the two hexadecimal digits of a byte,
/// each written in upper or lower case, into that byte, and decodes what
/// follows on its own.
pub proof fn law_percent_decode_either_case(x: u8, upper_hi: bool, upper_lo: bool, rest: Seq<u8>)
    ensures
        percent_decode(
            seq![37u8, hex_digit_byte(x as int / 16, upper_hi), hex_digit_byte(x as int % 16, upper_lo)] + rest,
        ) == seq![x] + percent_decode(rest),
{
    let hb = hex_digit_byte(x as int / 16, upper_hi);
    let lb = hex_digit_byte(x as int % 16, upper_lo);
    let bs = seq![37u8, hb, lb] + rest;
    assert(hex_value(hb) == Some((x / 16) as u8));
    assert(hex_value(lb) == Some((x % 16) as u8));
    assert(bs[0] == 37 && bs[1] == hb && bs[2] == lb);
    assert(bs.subrange(3, bs.len() as int) =~= rest);
    assert(((x / 16) as u8) * 16 + ((x % 16) as u8) == x);
}

/// Percent-decoding: `%` and two hexadecimal digits become that byte; every
/// other byte is kept.
pub open spec fn percent_decode(bs: Seq<u8>) -> Seq<u8>
    decreases bs.len(),
{
    if bs.len() == 0 {
        Seq::empty()
    } else if bs.len() >= 3 && bs[0] == 37 && hex_value(bs[1]) is Some && hex_value(bs[2]) is Some {
        seq![(hex_value(bs[1])->0 * 16 + hex_value(bs[2])->0) as u8] + percent_decode(
            bs.subrange(3, bs.len() as int),
        )
    } else {
        seq![bs[0]] + percent_decode(bs.subrange(1, bs.len() as int))
    }
}

/// `+` becomes a space.
pub open spec fn plus_to_space(bs: Seq<u8>) -> Seq<u8> {
    bs.map_values(|b: u8| if b == 43 { 32u8 } else { b })
}

/// The `url_encode` filter.
#[derive(Debug, Clone, Copy)]
pub struct UrlEncode;

/// The `url_decode` filter.
#[derive(Debug, Clone, Copy)]
pub struct UrlDecode;

/// The hexadecimal digit of `n < 16`.
fn hex_char(n: u8) -> (r: char)
    requires
        n < 16,
    ensures
        r == hex_digit(n as int),
{
    if n < 10 {
        (48u8 + n) as char
    } else {
        (55u8 + n) as char
    }
}

/// The value of an ASCII hexadecimal digit.
fn hex_val(b: u8) -> (r: Option<u8>)
    ensures
        r == hex_value(b),
{
    if 48 <= b && b <= 57 {
        Some(b - 48)
    } else if 65 <= b && b <= 70 {
        Some(b - 55)
    } else if 97 <= b && b <= 102 {
        Some(b - 87)
    } else {
        None
    }
}

impl UrlEncode {
    /// Percent-encodes the UTF-8 bytes of the rendered input, keeping ASCII
    /// letters, digits, `-`, `.` and `_`; nil stays nil.
    pub fn evaluate(&self, input: &Value) -> (r: Value)
        ensures
            input@ is Nil ==> r@ is Nil,
            !(input@ is Nil) ==> r@ == ValueModel::Scalar(
                crate::value::ScalarModel::Str(
                    url_encode_bytes(vstd::utf8::encode_utf8(render_text(input@))),
                ),
            ),
    {
        if input.is_nil() {
            return Value::Nil;
        }
        let text = crate::render::render(input);
        let bytes = text.as_str().as_bytes();
        let mut out: Vec<char> = Vec::new();
        let mut i: usize = 0;
        while i < bytes.len()
            invariant
                i <= bytes@.len(),
                out@ == url_encode_bytes(bytes@.take(i as int)),
            decreases bytes@.len() - i,
        {
            let b = bytes[i];
            if (48 <= b && b <= 57) || (65 <= b && b <= 90) || (97 <= b && b <= 122) || b == 45
                || b == 46 || b == 95 {
                out.push(b as char);
            } else {
                out.push('%');
                out.push(hex_char(b / 16));
                out.push(hex_char(b % 16));
            }
            proof {
                let t = bytes@.take(i + 1);
                assert(t.drop_last() =~= bytes@.take(i as int));
                assert(t.last() == b);
            }
            i = i + 1;
            assert(out@ =~= url_encode_bytes(bytes@.take(i as int)));
        }
        assert(bytes@.take(bytes@.len() as int) =~= bytes@);
        Value::from_string(crate::text::string_of(out.as_slice()))
    }
}

/// `"Malformed UTF-8"`
pub open spec fn malformed_utf8() -> Seq<char> {
    seq!['M', 'a', 'l', 'f', 'o', 'r', 'm', 'e', 'd', ' ', 'U', 'T', 'F', '-', '8']
}

impl UrlDecode {
    /// Decodes the rendered input: `+` becomes a space, then `%XX` becomes
    /// that byte; bytes that are not UTF-8 are an error; nil stays nil.
    pub fn evaluate(&self, input: &Value) -> (r: Result<Value, Error>)
        ensures
            input@ is Nil ==> (r matches Ok(v) && v@ is Nil),
            !(input@ is Nil) ==> {
                let decoded = percent_decode(
                    plus_to_space(vstd::utf8::encode_utf8(render_text(input@))),
                );
                match r {
                    Ok(v) => v@ matches ValueModel::Scalar(crate::value::ScalarModel::Str(t))
                        && vstd::utf8::encode_utf8(t) == decoded,
                    Err(e) => !vstd::utf8::valid_utf8(decoded) && e@ == invalid_input_model(
                        malformed_utf8(),
                    ),
                }
            },
    {
        if input.is_nil() {
            return Ok(Value::Nil);
        }
        let text = crate::render::render(input);
        let raw = text.as_str().as_bytes();
        let ghost src = plus_to_space(raw@);
        let mut spaced: Vec<u8> = Vec::new();
        let mut k: usize = 0;
        while k < raw.len()
            invariant
                k <= raw@.len(),
                src == plus_to_space(raw@),
                spaced@ == src.take(k as int),
            decreases raw@.len() - k,
        {
            let b = raw[k];
            spaced.push(if b == 43 { 32u8 } else { b });
            assert(src.take(k + 1) =~= src.take(k as int).push(src[k as int]));
            k = k + 1;
        }
        assert(src.take(raw@.len() as int) =~= src);
        let n = spaced.len();
        let mut out: Vec<u8> = Vec::new();
        let mut i: usize = 0;
        assert(spaced@.subrange(0, n as int) =~= spaced@);
        while i < n
            invariant
                i <= n,
                n == spaced@.len(),
                percent_decode(spaced@) == out@ + percent_decode(spaced@.subrange(i as int, n as int)),
            decreases n - i,
        {
            let ghost rest = spaced@.subrange(i as int, n as int);
            let b = spaced[i];
            if b == 37 && n - i > 2 {
                let h1 = hex_val(spaced[i + 1]);
                let h2 = hex_val(spaced[i + 2]);
                if h1.is_some() && h2.is_some() {
                    let v: u8 = match (h1, h2) {
                        (Some(x), Some(y)) => x * 16 + y,
                        _ => 0,
                    };
                    out.push(v);
                    assert(rest.subrange(3, rest.len() as int) =~= spaced@.subrange(i + 3, n as int));
                    assert(out@ + percent_decode(spaced@.subrange(i + 3, n as int)) =~= out@.drop_last() + (seq![v] + percent_decode(rest.subrange(3, rest.len() as int))));
                    i = i + 3;
                    continue;
                }
            }
            out.push(b);
            assert(rest.subrange(1, rest.len() as int) =~= spaced@.subrange(i + 1, n as int));
            assert(out@ + percent_decode(spaced@.subrange(i + 1, n as int)) =~= out@.drop_last() + (seq![b] + percent_decode(rest.subrange(1, rest.len() as int))));
            i = i + 1;
        }
        assert(out@ + percent_decode(spaced@.subrange(n as int, n as int)) =~= out@);
        let ghost decoded = out@;
        match string_from_utf8(out) {
            Some(s) => Ok(Value::from_string(s)),
            None => {
                let cause: &'static str = "Malformed UTF-8";
                proof {
                    reveal_strlit("Malformed UTF-8");
                }
                assert(cause@ =~= malformed_utf8());
                Err(invalid_input(cause))
            },
        }
    }
}

/// The bytes of the encoding of one byte.
pub open spec fn encoded_byte(b: u8) -> Seq<u8> {
    if url_safe(b) {
        seq![b]
    } else {
        seq![37u8, hex_digit(b as int / 16) as u8, hex_digit(b as int % 16) as u8]
    }
}

/// The bytes of the percent-encoding of a byte sequence, built from the
/// front.
pub open spec fn encoded_bytes(bs: Seq<u8>) -> Seq<u8>
    decreases bs.len(),
{
    if bs.len() == 0 {
        Seq::empty()
    } else {
        encoded_byte(bs[0]) + encoded_bytes(bs.drop_first())
    }
}

proof fn lemma_url_encode_front(bs: Seq<u8>)
    requires
        bs.len() > 0,
    ensures
        url_encode_bytes(bs) == encode_byte(bs[0]) + url_encode_bytes(bs.drop_first()),
    decreases bs.len(),
{
    if bs.len() > 1 {
        let dl = bs.drop_last();
        let df = bs.drop_first();
        lemma_url_encode_front(dl);
        assert(dl.drop_first() =~= df.drop_last());
        assert(df.last() == bs.last());
        assert(dl[0] == bs[0]);
        assert(url_encode_bytes(df) == url_encode_bytes(df.drop_last()) + encode_byte(df.last()));
        assert(url_encode_bytes(bs) == url_encode_bytes(dl) + encode_byte(bs.last()));
        assert(encode_byte(bs[0]) + url_encode_bytes(dl.drop_first()) + encode_byte(bs.last())
            =~= encode_byte(bs[0]) + (url_encode_bytes(dl.drop_first()) + encode_byte(bs.last())));
    } else {
        assert(bs.drop_last().len() == 0);
        assert(bs.drop_first().len() == 0);
        assert(url_encode_bytes(bs) =~= url_encode_bytes(bs.drop_last()) + encode_byte(bs.last()));
        assert(url_encode_bytes(bs.drop_last()) =~= Seq::<char>::empty());
        assert(url_encode_bytes(bs.drop_first()) =~= Seq::<char>::empty());
    }
}

proof fn lemma_encode_utf8_concat(a: Seq<char>, b: Seq<char>)
    ensures
        vstd::utf8::encode_utf8(a + b) == vstd::utf8::encode_utf8(a) + vstd::utf8::encode_utf8(b),
    decreases a.len(),
{
    if a.len() == 0 {
        assert(a + b =~= b);
    } else {
        lemma_encode_utf8_concat(a.drop_first(), b);
        assert((a + b).drop_first() =~= a.drop_first() + b);
        assert((a + b)[0] == a[0]);
    }
}

proof fn lemma_hex_digit(n: int)
    requires
        0 <= n < 16,
    ensures
        '0' <= hex_digit(n) <= '9' || 'A' <= hex_digit(n) <= 'F',
        hex_value(hex_digit(n) as u8) == Some(n as u8),
        hex_digit(n) as u8 != 43,
{
}

proof fn lemma_encode_byte_utf8(b: u8)
    ensures
        vstd::utf8::encode_utf8(encode_byte(b)) == encoded_byte(b),
{
    let c = encode_byte(b);
    lemma_hex_digit(b as int / 16);
    lemma_hex_digit(b as int % 16);
    assert(vstd::utf8::is_ascii_chars(c));
    vstd::utf8::is_ascii_chars_encode_utf8(c);
    assert(vstd::utf8::encode_utf8(c) =~= encoded_byte(b));
}

proof fn lemma_url_encode_utf8(bs: Seq<u8>)
    ensures
        vstd::utf8::encode_utf8(url_encode_bytes(bs)) == encoded_bytes(bs),
    decreases bs.len(),
{
    if bs.len() > 0 {
        lemma_url_encode_front(bs);
        lemma_encode_utf8_concat(encode_byte(bs[0]), url_encode_bytes(bs.drop_first()));
        lemma_encode_byte_utf8(bs[0]);
        lemma_url_encode_utf8(bs.drop_first());
    } else {
        assert(url_encode_bytes(bs).len() == 0);
    }
}

proof fn lemma_encoded_has_no_plus(bs: Seq<u8>)
    ensures
        plus_to_space(encoded_bytes(bs)) == encoded_bytes(bs),
    decreases bs.len(),
{
    if bs.len() > 0 {
        lemma_encoded_has_no_plus(bs.drop_first());
        let b = bs[0];
        lemma_hex_digit(b as int / 16);
        lemma_hex_digit(b as int % 16);
        let e = encoded_byte(b);
        let r = encoded_bytes(bs.drop_first());
        assert(plus_to_space(e) =~= e);
        assert(plus_to_space(e + r) =~= plus_to_space(e) + plus_to_space(r));
    } else {
        assert(plus_to_space(encoded_bytes(bs)) =~= encoded_bytes(bs));
    }
}

proof fn lemma_decode_encoded(bs: Seq<u8>)
    ensures
        percent_decode(encoded_bytes(bs)) == bs,
    decreases bs.len(),
{
    if bs.len() > 0 {
        let b = bs[0];
        let r = encoded_bytes(bs.drop_first());
        let e = encoded_byte(b);
        let all = e + r;
        lemma_decode_encoded(bs.drop_first());
        lemma_hex_digit(b as int / 16);
        lemma_hex_digit(b as int % 16);
        if url_safe(b) {
            assert(all[0] == b);
            assert(all.subrange(1, all.len() as int) =~= r);
        } else {
            assert(all[0] == 37 && all[1] == hex_digit(b as int / 16) as u8 && all[2] == hex_digit(
                b as int % 16,
            ) as u8);
            assert(all.subrange(3, all.len() as int) =~= r);
            assert((b as int / 16) * 16 + b as int % 16 == b);
        }
        assert(seq![b] + bs.drop_first() =~= bs);
    } else {
        assert(encoded_bytes(bs).len() == 0);
    }
}

/// `url_decode` undoes `url_encode`: decoding the encoding of any text gives
/// back its UTF-8 bytes, so the decoded text is the original one.
pub proof fn law_url_decode_inverts_encode(text: Seq<char>)
    ensures
        percent_decode(plus_to_space(vstd::utf8::encode_utf8(url_encode_bytes(vstd::utf8::encode_utf8(text)))))
            == vstd::utf8::encode_utf8(text),
        forall|t: Seq<char>|
            #[trigger] vstd::utf8::encode_utf8(t) == vstd::utf8::encode_utf8(text) ==> t == text,
{
    let bs = vstd::utf8::encode_utf8(text);
    lemma_url_encode_utf8(bs);
    lemma_encoded_has_no_plus(bs);
    lemma_decode_encoded(bs);
    assert forall|t: Seq<char>| #[trigger]
        vstd::utf8::encode_utf8(t) == vstd::utf8::encode_utf8(text) implies t == text by {
        vstd::utf8::encode_utf8_decode_utf8(t);
        vstd::utf8::encode_utf8_decode_utf8(text);
    }
}

} // verus!
