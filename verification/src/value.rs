//! The Liquid data model: scalars, arrays, objects, states and nil.

use crate::kstring::KString;
use crate::text::{int_text, int_to_string};
use vstd::prelude::*;

verus! {

/// Queryable state of a value.
#[derive(Clone, Copy, Debug, PartialEq, Eq, Structural)]
pub enum State {
    /// Is the value truthy?
    Truthy,
    /// Is the value the same as default initialized?
    DefaultValue,
    /// Is the value empty?
    Empty,
    /// Is the value blank?
    Blank,
}

/// A floating-point scalar.
///
/// Floating-point arithmetic is done outside this library; a float is carried
/// as its IEEE-754 bit pattern together with the text it renders to.
#[derive(Debug)]
pub struct FloatScalar {
    /// `f64::to_bits` of the value.
    pub bits: u64,
    /// The rendered text of the value.
    pub text: KString,
}

/// A scalar value.
#[derive(Debug)]
pub enum Scalar {
    /// A signed integer.
    Integer(i64),
    /// A floating-point number.
    Float(FloatScalar),
    /// A boolean.
    Bool(bool),
    /// A string.
    Str(KString),
}

/// A key/value map that keeps insertion order; keys are compared by their
/// characters.
#[derive(Debug)]
pub struct Object {
    pub(crate) entries: Vec<(KString, Value)>,
}

/// A Liquid value.
#[derive(Debug)]
pub enum Value {
    /// A scalar value.
    Scalar(Scalar),
    /// A sequence of values.
    Array(Vec<Value>),
    /// A map of named values.
    Object(Object),
    /// A queryable state.
    State(State),
    /// Nothing.
    Nil,
}

/// Abstract view of a scalar.
pub enum ScalarModel {
    /// A signed integer.
    Integer(i64),
    /// A float: its bit pattern and its rendered text.
    Float(u64, Seq<char>),
    /// A boolean.
    Bool(bool),
    /// A string.
    Str(Seq<char>),
}

/// Abstract view of a value: strings become character sequences and vectors
/// become sequences.
pub enum ValueModel {
    /// A scalar.
    Scalar(ScalarModel),
    /// A sequence of values.
    Array(Seq<ValueModel>),
    /// Entries in insertion order.
    Object(Seq<(Seq<char>, ValueModel)>),
    /// A queryable state.
    State(State),
    /// Nothing.
    Nil,
}

impl View for Scalar {
    type V = ScalarModel;

    open spec fn view(&self) -> ScalarModel {
        match self {
            Scalar::Integer(i) => ScalarModel::Integer(*i),
            Scalar::Float(f) => ScalarModel::Float(f.bits, f.text@),
            Scalar::Bool(b) => ScalarModel::Bool(*b),
            Scalar::Str(s) => ScalarModel::Str(s@),
        }
    }
}

/// The abstract view of a value.
pub open spec fn model_of(v: Value) -> ValueModel
    decreases v, 1nat,
{
    match v {
        Value::Scalar(s) => ValueModel::Scalar(s@),
        Value::Array(a) => ValueModel::Array(models_of(a@)),
        Value::Object(o) => ValueModel::Object(o.model()),
        Value::State(s) => ValueModel::State(s),
        Value::Nil => ValueModel::Nil,
    }
}

/// The abstract views of a sequence of values.
pub open spec fn models_of(s: Seq<Value>) -> Seq<ValueModel>
    decreases s, 0nat,
{
    if s.len() == 0 {
        Seq::empty()
    } else {
        seq![model_of(s[0])] + models_of(s.subrange(1, s.len() as int))
    }
}

/// The abstract views of object entries.
pub open spec fn entries_model(s: Seq<(KString, Value)>) -> Seq<(Seq<char>, ValueModel)>
    decreases s, 0nat,
{
    if s.len() == 0 {
        Seq::empty()
    } else {
        seq![(s[0].0@, model_of(s[0].1))] + entries_model(s.subrange(1, s.len() as int))
    }
}

impl View for Value {
    type V = ValueModel;

    open spec fn view(&self) -> ValueModel {
        model_of(*self)
    }
}

/// The text a scalar renders to.
pub open spec fn scalar_text(s: ScalarModel) -> Seq<char> {
    match s {
        ScalarModel::Integer(i) => int_text(i as int),
        ScalarModel::Float(_, t) => t,
        ScalarModel::Bool(b) => if b { seq!['t', 'r', 'u', 'e'] } else { seq!['f', 'a', 'l', 's', 'e'] },
        ScalarModel::Str(s) => s,
    }
}

/// What a scalar converts to as an integer: integers themselves, and strings
/// that `str::parse::<i64>` accepts.
pub open spec fn scalar_integer(s: ScalarModel) -> Option<i64> {
    match s {
        ScalarModel::Integer(i) => Some(i),
        ScalarModel::Str(s) => crate::text::spec_parse_i64(s),
        _ => None,
    }
}

/// Entry lookup: the value of the first entry whose key is `k`.
pub open spec fn lookup(entries: Seq<(Seq<char>, ValueModel)>, k: Seq<char>) -> Option<ValueModel>
    decreases entries.len(),
{
    if entries.len() == 0 {
        None
    } else if entries[0].0 == k {
        Some(entries[0].1)
    } else {
        lookup(entries.drop_first(), k)
    }
}

/// Whether some entry has the key `k`.
pub open spec fn has_key(entries: Seq<(Seq<char>, ValueModel)>, k: Seq<char>) -> bool {
    exists|i: int| 0 <= i < entries.len() && (#[trigger] entries[i]).0 == k
}

/// The keys of the entries.
pub open spec fn keys_of(entries: Seq<(Seq<char>, ValueModel)>) -> Seq<Seq<char>> {
    entries.map_values(|e: (Seq<char>, ValueModel)| e.0)
}

/// No two entries share a key.
pub open spec fn distinct_keys(entries: Seq<(Seq<char>, ValueModel)>) -> bool {
    forall|i: int, j: int|
        0 <= i < entries.len() && 0 <= j < entries.len() && i != j ==> (#[trigger] entries[i]).0
            != (#[trigger] entries[j]).0
}

/// `models_of` keeps the length and maps each element.
pub proof fn lemma_models_of(s: Seq<Value>)
    ensures
        models_of(s).len() == s.len(),
        forall|i: int| 0 <= i < s.len() ==> #[trigger] models_of(s)[i] == model_of(s[i]),
    decreases s.len(),
{
    if s.len() > 0 {
        lemma_models_of(s.subrange(1, s.len() as int));
        assert forall|i: int| 0 <= i < s.len() implies #[trigger] models_of(s)[i] == model_of(
            s[i],
        ) by {
            if i > 0 {
                assert(s.subrange(1, s.len() as int)[i - 1] == s[i]);
            }
        }
    }
}

/// `entries_model` keeps the length and maps each entry.
pub proof fn lemma_entries_model(s: Seq<(KString, Value)>)
    ensures
        entries_model(s).len() == s.len(),
        forall|i: int|
            0 <= i < s.len() ==> #[trigger] entries_model(s)[i] == (s[i].0@, model_of(s[i].1)),
    decreases s.len(),
{
    if s.len() > 0 {
        lemma_entries_model(s.subrange(1, s.len() as int));
        assert forall|i: int| 0 <= i < s.len() implies #[trigger] entries_model(s)[i] == (
            s[i].0@,
            model_of(s[i].1),
        ) by {
            if i > 0 {
                assert(s.subrange(1, s.len() as int)[i - 1] == s[i]);
            }
        }
    }
}

/// Two sequences of values with equal views element by element have equal views.
pub proof fn lemma_models_of_ext(a: Seq<Value>, b: Seq<Value>)
    requires
        a.len() == b.len(),
        forall|i: int| 0 <= i < a.len() ==> model_of(#[trigger] a[i]) == model_of(b[i]),
    ensures
        models_of(a) == models_of(b),
{
    lemma_models_of(a);
    lemma_models_of(b);
    assert(models_of(a) =~= models_of(b));
}

/// Two entry sequences with equal keys and value views have equal views.
pub proof fn lemma_entries_model_ext(a: Seq<(KString, Value)>, b: Seq<(KString, Value)>)
    requires
        a.len() == b.len(),
        forall|i: int|
            0 <= i < a.len() ==> (#[trigger] a[i]).0@ == b[i].0@ && model_of(a[i].1) == model_of(
                b[i].1,
            ),
    ensures
        entries_model(a) == entries_model(b),
{
    lemma_entries_model(a);
    lemma_entries_model(b);
    assert(entries_model(a) =~= entries_model(b));
}

/// `lookup` finds a value exactly when some key matches.
pub proof fn lemma_lookup_has_key(entries: Seq<(Seq<char>, ValueModel)>, k: Seq<char>)
    ensures
        lookup(entries, k) is Some <==> has_key(entries, k),
    decreases entries.len(),
{
    if entries.len() > 0 {
        lemma_lookup_has_key(entries.drop_first(), k);
        if has_key(entries, k) && entries[0].0 != k {
            let i = choose|i: int| 0 <= i < entries.len() && (#[trigger] entries[i]).0 == k;
            assert(entries.drop_first()[i - 1] == entries[i]);
        }
        if has_key(entries.drop_first(), k) {
            let i = choose|i: int|
                0 <= i < entries.drop_first().len() && (#[trigger] entries.drop_first()[i]).0 == k;
            assert(entries[i + 1] == entries.drop_first()[i]);
        }
    }
}

/// Looking up through a suffix agrees with looking up through the whole
/// sequence when the skipped entries do not match.
proof fn lemma_lookup_step(entries: Seq<(Seq<char>, ValueModel)>, i: int, k: Seq<char>)
    requires
        0 <= i < entries.len(),
        entries[i].0 != k,
    ensures
        lookup(entries.subrange(i, entries.len() as int), k) == lookup(
            entries.subrange(i + 1, entries.len() as int),
            k,
        ),
{
    let s = entries.subrange(i, entries.len() as int);
    assert(s[0] == entries[i]);
    assert(s.drop_first() =~= entries.subrange(i + 1, entries.len() as int));
}

impl Object {
    /// The view of an object is the view of its entries.
    pub(crate) proof fn lemma_model(&self)
        ensures
            self.model() == entries_model(self.entries@),
    {
    }

    /// The entries in insertion order, as abstract views.
    pub closed spec fn model(&self) -> Seq<(Seq<char>, ValueModel)>
        decreases self, 0nat,
    {
        entries_model(self.entries@)
    }

    /// Well-formedness: keys are distinct.
    pub open spec fn wf(&self) -> bool {
        distinct_keys(self.model())
    }

    /// The value stored under `k`, if any.
    pub open spec fn spec_get(&self, k: Seq<char>) -> Option<ValueModel> {
        lookup(self.model(), k)
    }

    /// Create an empty object.
    pub fn new() -> (r: Self)
        ensures
            r.model() == Seq::<(Seq<char>, ValueModel)>::empty(),
            r.wf(),
    {
        let r = Object { entries: Vec::new() };
        assert(r.model() =~= Seq::<(Seq<char>, ValueModel)>::empty());
        r
    }

    /// Number of entries.
    pub fn len(&self) -> (r: usize)
        ensures
            r == self.model().len(),
    {
        proof {
            lemma_entries_model(self.entries@);
        }
        self.entries.len()
    }

    /// Number of entries, as Liquid reports it.
    pub fn size(&self) -> (r: i64)
        requires
            self.model().len() <= i64::MAX,
        ensures
            r == self.model().len(),
    {
        self.len() as i64
    }

    /// Position of the first entry whose key is `key`.
    fn position(&self, key: &str) -> (r: Option<usize>)
        ensures
            match r {
                Some(i) => i < self.model().len() && self.model()[i as int].0 == key@
                    && self.spec_get(key@) == Some(self.model()[i as int].1)
                    && forall|j: int| 0 <= j < i ==> (#[trigger] self.model()[j]).0 != key@,
                None => self.spec_get(key@) is None && !has_key(self.model(), key@),
            },
    {
        let mut i: usize = 0;
        let ghost es = self.model();
        proof {
            lemma_entries_model(self.entries@);
        }
        assert(es.subrange(0, es.len() as int) =~= es);
        while i < self.entries.len()
            invariant
                i <= es.len(),
                es == self.model(),
                es.len() == self.entries@.len(),
                forall|j: int| 0 <= j < es.len() ==> #[trigger] es[j] == (self.entries@[j].0@, model_of(self.entries@[j].1)),
                lookup(es, key@) == lookup(es.subrange(i as int, es.len() as int), key@),
                forall|j: int| 0 <= j < i ==> (#[trigger] es[j]).0 != key@,
            decreases es.len() - i,
        {
            if self.entries[i].0.eq_str(key) {
                let ghost s = es.subrange(i as int, es.len() as int);
                assert(s[0] == es[i as int]);
                return Some(i);
            }
            proof {
                lemma_lookup_step(es, i as int, key@);
            }
            i = i + 1;
        }
        proof {
            assert(es.subrange(es.len() as int, es.len() as int).len() == 0);
            lemma_lookup_has_key(es, key@);
        }
        None
    }

    /// Whether some entry has the key `key`.
    pub fn contains_key(&self, key: &str) -> (r: bool)
        ensures
            r == (self.spec_get(key@) is Some),
    {
        self.position(key).is_some()
    }

    /// The value stored under `key`.
    pub fn get(&self, key: &str) -> (r: Option<&Value>)
        ensures
            match r {
                Some(v) => self.spec_get(key@) == Some(v@),
                None => self.spec_get(key@) is None,
            },
    {
        match self.position(key) {
            Some(i) => {
                proof {
                    lemma_entries_model(self.entries@);
                }
                Some(&self.entries[i].1)
            }
            None => None,
        }
    }

    /// Insert `value` under `key`, replacing and returning the previous value
    /// of the same key; a new key is appended at the end.
    pub fn insert(&mut self, key: KString, value: Value) -> (r: Option<Value>)
        ensures
            match r {
                Some(v) => old(self).spec_get(key@) == Some(v@),
                None => old(self).spec_get(key@) is None,
            },
            final(self).spec_get(key@) == Some(value@),
            forall|k: Seq<char>| k != key@ ==> final(self).spec_get(k) == old(self).spec_get(k),
            old(self).wf() ==> final(self).wf(),
            keys_of(final(self).model()) == if r is Some {
                keys_of(old(self).model())
            } else {
                keys_of(old(self).model()).push(key@)
            },
    {
        let ghost old_es = self.model();
        let ghost old_v = self.entries@;
        proof {
            lemma_entries_model(old_v);
        }
        match self.position(key.as_str()) {
            Some(i) => {
                let ghost kk = key@;
                let ghost vm = value@;
                let mut entry = (key, value);
                std::mem::swap(&mut entry, &mut self.entries[i]);
                let ghost new_es = self.model();
                proof {
                    lemma_entries_model(self.entries@);
                    assert(new_es =~= old_es.update(i as int, (kk, vm)));
                    lemma_lookup_update(old_es, i as int, kk, (kk, vm));
                    assert(keys_of(new_es) =~= keys_of(old_es));
                    assert(old_es[i as int] == (old_v[i as int].0@, model_of(old_v[i as int].1)));
                }
                Some(entry.1)
            }
            None => {
                let ghost kk = key@;
                let ghost vm = value@;
                self.entries.push((key, value));
                proof {
                    lemma_entries_model(self.entries@);
                    assert(self.model() =~= old_es.push((kk, vm)));
                    lemma_lookup_push(old_es, kk, (kk, vm));
                    assert(keys_of(self.model()) =~= keys_of(old_es).push(kk));
                    if distinct_keys(old_es) {
                        lemma_lookup_has_key(old_es, kk);
                        let es = self.model();
                        assert forall|a: int, b: int|
                            0 <= a < es.len() && 0 <= b < es.len() && a != b implies (#[trigger] es[a]).0
                            != (#[trigger] es[b]).0 by {
                            if a < old_es.len() && b < old_es.len() {
                                assert(es[a] == old_es[a]);
                                assert(es[b] == old_es[b]);
                            } else if a < old_es.len() {
                                assert(es[a] == old_es[a]);
                            } else {
                                assert(es[b] == old_es[b]);
                            }
                        }
                    }
                }
                None
            }
        }
    }

    /// The key of the `i`-th entry.
    pub fn key_at(&self, i: usize) -> (r: &KString)
        requires
            i < self.model().len(),
        ensures
            r@ == self.model()[i as int].0,
    {
        proof {
            lemma_entries_model(self.entries@);
        }
        &self.entries[i].0
    }

    /// The value of the `i`-th entry.
    pub fn value_at(&self, i: usize) -> (r: &Value)
        requires
            i < self.model().len(),
        ensures
            r@ == self.model()[i as int].1,
    {
        proof {
            lemma_entries_model(self.entries@);
        }
        &self.entries[i].1
    }
}

impl Scalar {
    /// An exact copy.
    pub fn copy(&self) -> (r: Scalar)
        ensures
            r == *self,
    {
        match self {
            Scalar::Integer(i) => Scalar::Integer(*i),
            Scalar::Float(f) => Scalar::Float(FloatScalar { bits: f.bits, text: f.text.clone() }),
            Scalar::Bool(b) => Scalar::Bool(*b),
            Scalar::Str(s) => Scalar::Str(s.clone()),
        }
    }

    /// A string scalar holding the characters of `s`.
    pub fn from_str(s: &str) -> (r: Scalar)
        ensures
            r@ == ScalarModel::Str(s@),
    {
        Scalar::Str(KString::from_ref(s))
    }

    /// Whether the scalar is a string.
    pub fn is_string(&self) -> (r: bool)
        ensures
            r == (self@ is Str),
    {
        match self {
            Scalar::Str(_) => true,
            _ => false,
        }
    }

    /// The text the scalar renders to.
    pub fn to_kstr(&self) -> (r: KString)
        ensures
            r@ == scalar_text(self@),
    {
        match self {
            Scalar::Integer(i) => KString::from_string(int_to_string(*i)),
            Scalar::Float(f) => f.text.clone(),
            Scalar::Bool(b) => {
                proof {
                    reveal_strlit("true");
                    reveal_strlit("false");
                }
                if *b {
                    let t: &'static str = "true";
                    assert(t@ =~= seq!['t', 'r', 'u', 'e']);
                    KString::from_static(t)
                } else {
                    let f: &'static str = "false";
                    assert(f@ =~= seq!['f', 'a', 'l', 's', 'e']);
                    KString::from_static(f)
                }
            }
            Scalar::Str(s) => s.clone(),
        }
    }

    /// The scalar as an integer: integers themselves and strings that parse as
    /// a signed decimal integer.
    pub fn to_integer(&self) -> (r: Option<i64>)
        ensures
            r == scalar_integer(self@),
    {
        match self {
            Scalar::Integer(i) => Some(*i),
            Scalar::Str(s) => {
                let chars = crate::text::chars_of(s.as_str());
                crate::text::parse_i64(chars.as_slice())
            }
            _ => None,
        }
    }
}

impl Value {
    /// An integer scalar.
    pub fn integer(i: i64) -> (r: Value)
        ensures
            r@ == ValueModel::Scalar(ScalarModel::Integer(i)),
    {
        Value::Scalar(Scalar::Integer(i))
    }

    /// A boolean scalar.
    pub fn boolean(b: bool) -> (r: Value)
        ensures
            r@ == ValueModel::Scalar(ScalarModel::Bool(b)),
    {
        Value::Scalar(Scalar::Bool(b))
    }

    /// A string scalar.
    pub fn string(s: &str) -> (r: Value)
        ensures
            r@ == ValueModel::Scalar(ScalarModel::Str(s@)),
    {
        Value::Scalar(Scalar::from_str(s))
    }

    /// A string scalar that takes ownership of `s`.
    pub fn from_string(s: String) -> (r: Value)
        ensures
            r@ == ValueModel::Scalar(ScalarModel::Str(s@)),
    {
        Value::Scalar(Scalar::Str(KString::from_string(s)))
    }

    /// A float scalar: its bit pattern and the text it renders to.
    pub fn float(bits: u64, text: &str) -> (r: Value)
        ensures
            r@ == ValueModel::Scalar(ScalarModel::Float(bits, text@)),
    {
        Value::Scalar(Scalar::Float(FloatScalar { bits, text: KString::from_ref(text) }))
    }

    /// An array of values.
    pub fn array(values: Vec<Value>) -> (r: Value)
        ensures
            r@ == ValueModel::Array(models_of(values@)),
    {
        Value::Array(values)
    }

    /// Whether the value is nil.
    pub fn is_nil(&self) -> (r: bool)
        ensures
            r == (self@ is Nil),
    {
        match self {
            Value::Nil => true,
            _ => false,
        }
    }

    /// Whether the value is an object.
    pub fn is_object(&self) -> (r: bool)
        ensures
            r == (self@ is Object),
    {
        match self {
            Value::Object(_) => true,
            _ => false,
        }
    }

    /// The scalar, when the value is one.
    pub fn as_scalar(&self) -> (r: Option<&Scalar>)
        ensures
            match r {
                Some(s) => self@ == ValueModel::Scalar(s@),
                None => !(self@ is Scalar),
            },
    {
        match self {
            Value::Scalar(s) => Some(s),
            _ => None,
        }
    }

    /// The elements, when the value is an array.
    pub fn as_array(&self) -> (r: Option<&Vec<Value>>)
        ensures
            match r {
                Some(a) => self@ == ValueModel::Array(models_of(a@)),
                None => !(self@ is Array),
            },
    {
        match self {
            Value::Array(a) => Some(a),
            _ => None,
        }
    }

    /// The object, when the value is one.
    pub fn as_object(&self) -> (r: Option<&Object>)
        ensures
            match r {
                Some(o) => self@ == ValueModel::Object(o.model()),
                None => !(self@ is Object),
            },
    {
        match self {
            Value::Object(o) => Some(o),
            _ => None,
        }
    }

    /// Converts into the array elements, when the value is an array.
    pub fn into_array(self) -> (r: Option<Vec<Value>>)
        ensures
            match r {
                Some(a) => self@ == ValueModel::Array(models_of(a@)),
                None => !(self@ is Array),
            },
    {
        match self {
            Value::Array(a) => Some(a),
            _ => None,
        }
    }

    /// Converts into the scalar, when the value is one.
    pub fn into_scalar(self) -> (r: Option<Scalar>)
        ensures
            match r {
                Some(s) => self@ == ValueModel::Scalar(s@),
                None => !(self@ is Scalar),
            },
    {
        match self {
            Value::Scalar(s) => Some(s),
            _ => None,
        }
    }

    /// A deep copy: the copy has the same view.
    pub fn deep_clone(&self) -> (r: Value)
        ensures
            r@ == self@,
        decreases self,
    {
        match self {
            Value::Scalar(s) => Value::Scalar(s.copy()),
            Value::Array(a) => {
                let mut out: Vec<Value> = Vec::new();
                let mut i: usize = 0;
                while i < a.len()
                    invariant
                        i <= a@.len(),
                        out@.len() == i,
                        forall|j: int| 0 <= j < i ==> model_of(#[trigger] out@[j]) == model_of(a@[j]),
                        *self == Value::Array(*a),
                    decreases a@.len() - i,
                {
                    proof {
                        broadcast use vstd::std_specs::vec::axiom_vec_decreases_to_view;
                        assert(decreases_to!(*self => (*self)->Array_0));
                        assert(decreases_to!(*a => a@));
                        assert(decreases_to!(a@ => a@[i as int]));
                        assert(decreases_to!(*self => a@[i as int]));
                    }
                    let c = a[i].deep_clone();
                    out.push(c);
                    i = i + 1;
                }
                proof {
                    lemma_models_of_ext(out@, a@);
                }
                Value::Array(out)
            }
            Value::Object(o) => Value::Object(o.deep_clone_entries()),
            Value::State(s) => Value::State(*s),
            Value::Nil => Value::Nil,
        }
    }
}

impl Object {
    /// A deep copy of the object.
    fn deep_clone_entries(&self) -> (r: Object)
        ensures
            r.model() == self.model(),
        decreases self,
    {
        let mut out: Vec<(KString, Value)> = Vec::new();
        let mut i: usize = 0;
        while i < self.entries.len()
            invariant
                i <= self.entries@.len(),
                out@.len() == i,
                forall|j: int|
                    0 <= j < i ==> (#[trigger] out@[j]).0@ == self.entries@[j].0@ && model_of(out@[j].1)
                        == model_of(self.entries@[j].1),
            decreases self.entries@.len() - i,
        {
            proof {
                broadcast use vstd::std_specs::vec::axiom_vec_decreases_to_view;
                assert(decreases_to!(self.entries => self.entries@));
                assert(decreases_to!(self.entries@ => self.entries@[i as int]));
                assert(decreases_to!(self.entries@[i as int] => self.entries@[i as int].1));
                assert(decreases_to!(*self => self.entries@[i as int].1));
            }
            let k = self.entries[i].0.clone();
            let v = self.entries[i].1.deep_clone();
            out.push((k, v));
            i = i + 1;
        }
        proof {
            lemma_entries_model_ext(out@, self.entries@);
        }
        Object { entries: out }
    }
}

impl Clone for Value {
    fn clone(&self) -> (r: Self)
        ensures
            r@ == self@,
    {
        self.deep_clone()
    }
}

impl Clone for Object {
    fn clone(&self) -> (r: Self)
        ensures
            r.model() == self.model(),
    {
        self.deep_clone_entries()
    }
}

/// Lookup after replacing the entry at a position that matched the key.
proof fn lemma_lookup_update(
    es: Seq<(Seq<char>, ValueModel)>,
    i: int,
    k: Seq<char>,
    e: (Seq<char>, ValueModel),
)
    requires
        0 <= i < es.len(),
        es[i].0 == k,
        e.0 == k,
        forall|j: int| 0 <= j < i ==> (#[trigger] es[j]).0 != k,
    ensures
        lookup(es.update(i, e), k) == Some(e.1),
        forall|k2: Seq<char>| k2 != k ==> lookup(es.update(i, e), k2) == lookup(es, k2),
        distinct_keys(es) ==> distinct_keys(es.update(i, e)),
    decreases es.len(),
{
    let u = es.update(i, e);
    if i == 0 {
        assert(u.drop_first() =~= es.drop_first());
    } else {
        assert(u.drop_first() =~= es.drop_first().update(i - 1, e));
        assert forall|j: int| 0 <= j < i - 1 implies (#[trigger] es.drop_first()[j]).0 != k by {
            assert(es.drop_first()[j] == es[j + 1]);
        }
        lemma_lookup_update(es.drop_first(), i - 1, k, e);
        assert(es[0].0 != k);
    }
    assert forall|k2: Seq<char>| k2 != k implies lookup(u, k2) == lookup(es, k2) by {
        lemma_lookup_update_other(es, i, k, e, k2);
    }
    if distinct_keys(es) {
        assert forall|a: int, b: int|
            0 <= a < u.len() && 0 <= b < u.len() && a != b implies (#[trigger] u[a]).0
            != (#[trigger] u[b]).0 by {
            if a != i && b != i {
                assert(u[a] == es[a]);
                assert(u[b] == es[b]);
            } else if a == i {
                assert(u[b] == es[b]);
            } else {
                assert(u[a] == es[a]);
            }
        }
    }
}

proof fn lemma_lookup_update_other(
    es: Seq<(Seq<char>, ValueModel)>,
    i: int,
    k: Seq<char>,
    e: (Seq<char>, ValueModel),
    k2: Seq<char>,
)
    requires
        0 <= i < es.len(),
        es[i].0 == k,
        e.0 == k,
        k2 != k,
    ensures
        lookup(es.update(i, e), k2) == lookup(es, k2),
    decreases es.len(),
{
    let u = es.update(i, e);
    if i == 0 {
        assert(u.drop_first() =~= es.drop_first());
    } else {
        assert(u.drop_first() =~= es.drop_first().update(i - 1, e));
        lemma_lookup_update_other(es.drop_first(), i - 1, k, e, k2);
    }
}

/// Lookup after appending an entry with a key that was absent.
proof fn lemma_lookup_push(es: Seq<(Seq<char>, ValueModel)>, k: Seq<char>, e: (Seq<char>, ValueModel))
    requires
        lookup(es, k) is None,
        e.0 == k,
    ensures
        lookup(es.push(e), k) == Some(e.1),
        forall|k2: Seq<char>| k2 != k ==> lookup(es.push(e), k2) == lookup(es, k2),
    decreases es.len(),
{
    if es.len() == 0 {
        assert(es.push(e).drop_first() =~= es);
    } else {
        assert(es.push(e).drop_first() =~= es.drop_first().push(e));
        lemma_lookup_push(es.drop_first(), k, e);
    }
    assert forall|k2: Seq<char>| k2 != k implies lookup(es.push(e), k2) == lookup(es, k2) by {
        if es.len() == 0 {
            assert(es.push(e).drop_first() =~= es);
        } else {
            assert(es.push(e).drop_first() =~= es.drop_first().push(e));
            assert(es.push(e)[0] == es[0]);
            assert(lookup(es.drop_first().push(e), k2) == lookup(es.drop_first(), k2));
        }
    }
}

} // verus!
