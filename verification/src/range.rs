//! Range literals (`(start..stop)`) bound to variables, materialized lazily.

use crate::error::{Error, ErrorModel, TraceModel};
use crate::kstring::KString;
use crate::text::{int_text, push_int_text, string_of};
use crate::value::{lemma_models_of, models_of, scalar_integer, ScalarModel, Value, ValueModel};
use vstd::prelude::*;

verus! {

/// Number of elements of `start..=stop`, saturated at `i64::MAX`.
pub open spec fn range_size(start: i64, stop: i64) -> int {
    if stop < start {
        0
    } else if stop - start + 1 > i64::MAX {
        i64::MAX as int
    } else {
        stop - start + 1
    }
}

/// The integers `start..=stop` as values.
pub open spec fn range_values(start: i64, stop: i64) -> Seq<ValueModel> {
    Seq::new(
        if stop < start { 0 } else { (stop - start + 1) as nat },
        |i: int| ValueModel::Scalar(ScalarModel::Integer((start + i) as i64)),
    )
}

/// `index` as a position in a sequence of `size` elements, counting from the
/// end when negative.
pub open spec fn normalized(size: int, index: i64) -> Option<int> {
    let i = if index >= 0 { index as int } else { size + index };
    if 0 <= i < size {
        Some(i)
    } else {
        None
    }
}

/// The size a range reports without materializing is the number of values
/// it materializes, wherever that number fits in an `i64`.
pub proof fn law_size_matches_materialized(start: i64, stop: i64)
    requires
        stop - start + 1 <= i64::MAX,
    ensures
        range_size(start, stop) == range_values(start, stop).len(),
        forall|i: int|
            0 <= i < range_values(start, stop).len() ==> #[trigger] range_values(start, stop)[i]
                == ValueModel::Scalar(ScalarModel::Integer((start + i) as i64)),
{
}

/// `start..stop`
pub open spec fn range_text(start: i64, stop: i64) -> Seq<char> {
    int_text(start as int) + seq!['.', '.'] + int_text(stop as int)
}

/// Array-like view of an assigned range literal.
#[derive(Debug)]
pub struct AssignedRangeValue {
    start: i64,
    stop: i64,
    values: Option<Vec<Value>>,
}

impl AssignedRangeValue {
    /// The first bound.
    pub closed spec fn spec_start(&self) -> i64 {
        self.start
    }

    /// The last bound (inclusive).
    pub closed spec fn spec_stop(&self) -> i64 {
        self.stop
    }

    /// Whether the elements have been built.
    pub closed spec fn spec_materialized(&self) -> bool {
        self.values is Some
    }

    /// Built elements are exactly the integers of the range.
    pub closed spec fn wf(&self) -> bool {
        self.values matches Some(v) ==> models_of(v@) == range_values(self.start, self.stop)
    }

    /// Create a range view; nothing is materialized yet.
    pub fn new(start: i64, stop: i64) -> (r: Self)
        ensures
            r.spec_start() == start,
            r.spec_stop() == stop,
            !r.spec_materialized(),
            r.wf(),
    {
        AssignedRangeValue { start, stop, values: None }
    }

    /// Number of elements, saturated at `i64::MAX`; does not materialize.
    pub fn size(&self) -> (r: i64)
        ensures
            r == range_size(self.spec_start(), self.spec_stop()),
    {
        if self.stop < self.start {
            0
        } else {
            let n: i128 = self.stop as i128 - self.start as i128 + 1;
            if n > i64::MAX as i128 {
                i64::MAX
            } else {
                n as i64
            }
        }
    }

    /// `index` as a position, counting from the end when negative.
    pub fn normalized_index(&self, index: i64) -> (r: Option<usize>)
        ensures
            match r {
                Some(i) => normalized(range_size(self.spec_start(), self.spec_stop()), index) == Some(
                    i as int,
                ),
                None => match normalized(range_size(self.spec_start(), self.spec_stop()), index) {
                    None => true,
                    Some(p) => p > usize::MAX,
                },
            },
    {
        let size = self.size();
        let index = if index >= 0 { index } else { size + index };
        if 0 <= index && index < size {
            if (index as u64) <= (usize::MAX as u64) {
                Some(index as usize)
            } else {
                None
            }
        } else {
            None
        }
    }

    /// The bounds.
    pub fn bounds(&self) -> (r: (i64, i64))
        ensures
            r == (self.spec_start(), self.spec_stop()),
    {
        (self.start, self.stop)
    }

    /// Whether the elements have been built.
    pub fn is_materialized(&self) -> (r: bool)
        ensures
            r == self.spec_materialized(),
    {
        self.values.is_some()
    }

    /// Builds the elements if needed, and returns them.
    pub fn materialized_values(&mut self) -> (r: &Vec<Value>)
        requires
            old(self).wf(),
        ensures
            models_of(r@) == range_values(old(self).spec_start(), old(self).spec_stop()),
            final(self).spec_materialized(),
            final(self).wf(),
            final(self).spec_start() == old(self).spec_start(),
            final(self).spec_stop() == old(self).spec_stop(),
    {
        if self.values.is_none() {
            let mut v: Vec<Value> = Vec::new();
            if self.start <= self.stop {
                let mut cur: i128 = self.start as i128;
                let ghost target = range_values(self.start, self.stop);
                while cur <= self.stop as i128
                    invariant
                        self.start as i128 <= cur <= self.stop as i128 + 1,
                        self.start <= self.stop,
                        v@.len() == cur - self.start,
                        target == range_values(self.start, self.stop),
                        forall|j: int| 0 <= j < v@.len() ==> #[trigger] v@[j]@ == target[j],
                    decreases self.stop as i128 + 1 - cur,
                {
                    v.push(Value::integer(cur as i64));
                    cur = cur + 1;
                }
                proof {
                    lemma_models_of(v@);
                    assert forall|j: int| 0 <= j < v@.len() implies #[trigger] models_of(v@)[j]
                        == target[j] by {
                        assert(v@[j]@ == target[j]);
                    }
                    assert(models_of(v@) =~= target);
                }
            } else {
                proof {
                    lemma_models_of(v@);
                    assert(models_of(v@) =~= range_values(self.start, self.stop));
                }
            }
            self.values = Some(v);
        }
        match &self.values {
            Some(v) => v,
            None => {
                proof {
                    assert(false);
                }
                vstd::pervasive::unreached()
            },
        }
    }

    /// The element at `index` (negative counts from the end); materializes.
    pub fn get(&mut self, index: i64) -> (r: Option<&Value>)
        requires
            old(self).wf(),
        ensures
            match r {
                Some(v) => {
                    let p = normalized(range_size(old(self).spec_start(), old(self).spec_stop()), index);
                    p is Some && v@ == range_values(old(self).spec_start(), old(self).spec_stop())[p->0]
                },
                None => normalized(range_size(old(self).spec_start(), old(self).spec_stop()), index) is None,
            },
            final(self).spec_materialized(),
            final(self).wf(),
            final(self).spec_start() == old(self).spec_start(),
            final(self).spec_stop() == old(self).spec_stop(),
    {
        let pos = self.normalized_index(index);
        let ghost start = self.start;
        let ghost stop = self.stop;
        assert(range_size(start, stop) <= range_values(start, stop).len());
        let values = self.materialized_values();
        proof {
            lemma_models_of(values@);
        }
        let count = values.len();
        match pos {
            Some(i) => {
                if i < count {
                    Some(&values[i])
                } else {
                    None
                }
            },
            None => None,
        }
    }

    /// Whether `index` (negative counts from the end) is inside the range.
    pub fn contains_key(&self, index: i64) -> (r: bool)
        ensures
            r == (normalized(range_size(self.spec_start(), self.spec_stop()), index) is Some),
    {
        let size = self.size();
        let index = if index >= 0 { index } else { size + index };
        0 <= index && index < size
    }

    /// The text a range renders to: `start..stop`.
    pub fn render(&self) -> (r: String)
        ensures
            r@ == range_text(self.spec_start(), self.spec_stop()),
    {
        let mut v: Vec<char> = Vec::new();
        push_int_text(&mut v, self.start);
        v.push('.');
        v.push('.');
        push_int_text(&mut v, self.stop);
        assert(v@ =~= range_text(self.start, self.stop));
        string_of(v.as_slice())
    }

    /// The source text of a range: `(start..stop)`.
    pub fn source(&self) -> (r: String)
        ensures
            r@ == seq!['('] + range_text(self.spec_start(), self.spec_stop()) + seq![')'],
    {
        let mut v: Vec<char> = Vec::new();
        v.push('(');
        push_int_text(&mut v, self.start);
        v.push('.');
        v.push('.');
        push_int_text(&mut v, self.stop);
        v.push(')');
        assert(v@ =~= seq!['('] + range_text(self.start, self.stop) + seq![')']);
        string_of(v.as_slice())
    }

    /// A range is truthy; it is empty, blank and default exactly when it has
    /// no elements.
    pub fn query_state(&self, state: crate::value::State) -> (r: bool)
        ensures
            r == match state {
                crate::value::State::Truthy => true,
                _ => range_size(self.spec_start(), self.spec_stop()) == 0,
            },
    {
        match state {
            crate::value::State::Truthy => true,
            _ => self.size() == 0,
        }
    }

    /// The materialized array value.
    pub fn to_value(&mut self) -> (r: Value)
        requires
            old(self).wf(),
        ensures
            r@ == ValueModel::Array(range_values(old(self).spec_start(), old(self).spec_stop())),
            final(self).spec_materialized(),
            final(self).wf(),
            final(self).spec_start() == old(self).spec_start(),
            final(self).spec_stop() == old(self).spec_stop(),
    {
        let values = self.materialized_values();
        let mut out: Vec<Value> = Vec::new();
        let mut i: usize = 0;
        proof {
            lemma_models_of(values@);
        }
        while i < values.len()
            invariant
                i <= values@.len(),
                out@.len() == i,
                forall|j: int| 0 <= j < i ==> (#[trigger] out@[j])@ == values@[j]@,
            decreases values@.len() - i,
        {
            out.push(values[i].deep_clone());
            i = i + 1;
        }
        proof {
            crate::value::lemma_models_of_ext(out@, values@);
        }
        Value::Array(out)
    }
}

/// A global binding: a plain value or a lazily materialized range.
#[derive(Debug)]
pub enum GlobalBinding {
    /// A plain value.
    Value(Value),
    /// A range literal.
    Range(AssignedRangeValue),
}

impl GlobalBinding {
    /// A plain binding.
    pub fn value(value: Value) -> (r: Self)
        ensures
            r matches GlobalBinding::Value(v) && v@ == value@,
    {
        GlobalBinding::Value(value)
    }

    /// A range binding.
    pub fn range(start: i64, stop: i64) -> (r: Self)
        ensures
            r matches GlobalBinding::Range(g) && g.spec_start() == start && g.spec_stop() == stop
                && !g.spec_materialized() && g.wf(),
    {
        GlobalBinding::Range(AssignedRangeValue::new(start, stop))
    }

    /// The bounds of a range binding.
    pub fn range_bounds(&self) -> (r: Option<(i64, i64)>)
        ensures
            match self {
                GlobalBinding::Range(g) => r == Some((g.spec_start(), g.spec_stop())),
                GlobalBinding::Value(_) => r is None,
            },
    {
        match self {
            GlobalBinding::Range(range) => Some(range.bounds()),
            GlobalBinding::Value(_) => None,
        }
    }
}

/// `"invalid integer"`
pub open spec fn invalid_integer_msg() -> Seq<char> {
    seq!['i', 'n', 'v', 'a', 'l', 'i', 'd', ' ', 'i', 'n', 't', 'e', 'g', 'e', 'r']
}

/// The error for a range bound that is not an integer.
pub fn invalid_integer_error() -> (r: Error)
    ensures
        r@.msg == invalid_integer_msg(),
        r@.backtrace == seq![TraceModel { trace: None, context: Seq::empty() }],
{
    let msg: &'static str = "invalid integer";
    proof {
        reveal_strlit("invalid integer");
    }
    assert(msg@ =~= invalid_integer_msg());
    let e = Error::with_msg(msg);
    assert(e@.backtrace =~= seq![TraceModel { trace: None, context: Seq::empty() }]);
    e
}

/// `o` is what `parse_float` gives for some string holding `s`.
pub open spec fn parses_to<F: Fn(&str) -> Option<i64>>(parse_float: F, s: Seq<char>, o: Option<i64>) -> bool {
    exists|a: &str| a@ == s && parse_float.ensures((a,), o)
}

/// `parse_float` gives one answer per text.
pub open spec fn functional_parser<F: Fn(&str) -> Option<i64>>(parse_float: F) -> bool {
    forall|a: &str, b: &str, o1: Option<i64>, o2: Option<i64>|
        #![trigger parse_float.ensures((a,), o1), parse_float.ensures((b,), o2)]
        a@ == b@ && parse_float.ensures((a,), o1) && parse_float.ensures((b,), o2) ==> o1 == o2
}

/// What `parse_float` gives for `s`, with 0 for text that is no number.
pub open spec fn float_bound<F: Fn(&str) -> Option<i64>>(parse_float: F, s: Seq<char>) -> i64 {
    match choose|o: Option<i64>| parses_to(parse_float, s, o) {
        Some(y) => y,
        None => 0,
    }
}

/// The error for a range bound that is not an integer.
pub open spec fn invalid_integer() -> ErrorModel {
    ErrorModel { msg: invalid_integer_msg(), backtrace: seq![TraceModel { trace: None, context: Seq::empty() }] }
}

/// A range bound as an integer: nil is 0, integers and integer strings are
/// themselves, other strings go through `parse_float`, anything else fails.
pub open spec fn spec_range_bound<F: Fn(&str) -> Option<i64>>(v: ValueModel, parse_float: F) -> Result<i64, ErrorModel> {
    match v {
        ValueModel::Nil => Ok(0),
        ValueModel::Scalar(s) => match scalar_integer(s) {
            Some(i) => Ok(i),
            None => match s {
                ScalarModel::Str(t) => Ok(float_bound(parse_float, t)),
                _ => Err(invalid_integer()),
            },
        },
        _ => Err(invalid_integer()),
    }
}

/// Converts a range bound to an integer: nil is 0, integers and integer
/// strings are themselves, other strings are read as a floating-point number
/// by `parse_float` (which truncates it to an integer; 0 when it is not a
/// number); anything else is an "invalid integer" error.
///
/// Floating-point parsing is the caller's part: `parse_float` is expected to
/// be `str::parse::<f64>` followed by a truncating cast.
pub fn range_bound_to_i64<F: Fn(&str) -> Option<i64>>(value: &Value, parse_float: &F) -> (r: Result<
    i64,
    Error,
>)
    requires
        forall|s: &str| parse_float.requires((s,)),
        functional_parser(*parse_float),
    ensures
        match r {
            Ok(x) => spec_range_bound(value@, *parse_float) == Ok::<i64, ErrorModel>(x),
            Err(e) => spec_range_bound(value@, *parse_float) == Err::<i64, ErrorModel>(e@),
        },
{
    if value.is_nil() {
        return Ok(0);
    }
    let scalar = match value.as_scalar() {
        Some(s) => s,
        None => {
            return Err(invalid_integer_error());
        },
    };
    if let Some(integer) = scalar.to_integer() {
        return Ok(integer);
    }
    if scalar.is_string() {
        let text = scalar.to_kstr();
        let arg = text.as_str();
        let parsed = parse_float(arg);
        proof {
            let t = text@;
            assert(parses_to(*parse_float, t, parsed));
            let o = choose|o: Option<i64>| parses_to(*parse_float, t, o);
            assert(parses_to(*parse_float, t, o));
            let a = choose|a: &str| a@ == t && parse_float.ensures((a,), o);
            assert(parse_float.ensures((arg,), parsed));
            assert(o == parsed);
        }
        let x = match parsed {
            Some(y) => y,
            None => 0,
        };
        return Ok(x);
    }
    let e = invalid_integer_error();
    assert(e@ == invalid_integer());
    Err(e)
}

} // verus!
