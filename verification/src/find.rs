//! Finding a value nested in another value along a variable path.

use crate::error::{Error, ErrorModel, TraceModel};
use crate::kstring::KString;
use crate::text::{all_digits, is_digit, join, join_strings, strings_model, int_text, int_to_string};
use crate::value::{lookup, lemma_models_of, scalar_integer, scalar_text, Scalar, ScalarModel, Value, ValueModel};
use crate::range::{range_text, range_values, AssignedRangeValue};
use crate::render::{render, render_text};
use vstd::prelude::*;

verus! {

/// Access kind for a variable path element.
#[derive(Clone, Copy, Debug, PartialEq, Eq, Structural)]
pub enum PathAccess {
    /// Dot access like `foo.bar`.
    Dot,
    /// Bracket access like `foo["bar"]`.
    Lookup,
}

/// A single element in a variable path.
#[derive(Debug)]
pub struct PathElement {
    value: Scalar,
    access: PathAccess,
}

impl View for PathElement {
    type V = (ScalarModel, PathAccess);

    closed spec fn view(&self) -> (ScalarModel, PathAccess) {
        (self.value@, self.access)
    }
}

/// The views of the elements of a path.
pub open spec fn path_model(s: Seq<PathElement>) -> Seq<(ScalarModel, PathAccess)> {
    s.map_values(|e: PathElement| e@)
}

impl PathElement {
    /// Create a path element with an explicit access kind.
    pub fn new(value: Scalar, access: PathAccess) -> (r: Self)
        ensures
            r@ == (value@, access),
    {
        PathElement { value, access }
    }

    /// A dot-access path element (`foo.bar`).
    pub fn dot(value: Scalar) -> (r: Self)
        ensures
            r@ == (value@, PathAccess::Dot),
    {
        PathElement { value, access: PathAccess::Dot }
    }

    /// Access the underlying scalar value.
    pub fn value(&self) -> (r: &Scalar)
        ensures
            r@ == self@.0,
    {
        &self.value
    }

    /// Returns true when the element came from bracket lookup syntax.
    pub fn is_lookup(&self) -> (r: bool)
        ensures
            r == (self@.1 == PathAccess::Lookup),
    {
        match self.access {
            PathAccess::Lookup => true,
            PathAccess::Dot => false,
        }
    }

    /// A copy of the element.
    pub fn copy(&self) -> (r: Self)
        ensures
            r@ == self@,
    {
        PathElement { value: self.value.copy(), access: self.access }
    }
}

/// Path to a value in an object; there is always at least one element.
#[derive(Debug)]
pub struct Path {
    elements: Vec<PathElement>,
}

impl View for Path {
    type V = Seq<(ScalarModel, PathAccess)>;

    closed spec fn view(&self) -> Seq<(ScalarModel, PathAccess)> {
        path_model(self.elements@)
    }
}

impl Path {
    /// A path of one element.
    pub fn with_index(value: PathElement) -> (r: Self)
        ensures
            r@ == seq![value@],
    {
        let mut elements: Vec<PathElement> = Vec::new();
        let ghost vm = value@;
        elements.push(value);
        let r = Path { elements };
        assert(r@ =~= seq![vm]);
        r
    }

    /// Append an index.
    pub fn push(&mut self, value: PathElement)
        ensures
            final(self)@ == old(self)@.push(value@),
    {
        let ghost vm = value@;
        self.elements.push(value);
        assert(self@ =~= old(self)@.push(vm));
    }

    /// Reserves capacity for at least `additional` more elements.
    pub fn reserve(&mut self, additional: usize)
        ensures
            final(self)@ == old(self)@,
    {
        self.elements.reserve(additional);
        assert(self@ =~= old(self)@);
    }

    /// Iterate over the elements.
    pub fn iter(&self) -> (r: PathIter<'_>)
        ensures
            r.remaining() == self@,
            r.wf(),
    {
        PathIter { elements: self.elements.as_slice(), pos: 0 }
    }

    /// The elements as a slice.
    pub fn as_slice(&self) -> (r: &[PathElement])
        ensures
            path_model(r@) == self@,
    {
        self.elements.as_slice()
    }

    /// Number of elements.
    pub fn len(&self) -> (r: usize)
        ensures
            r == self@.len(),
    {
        self.elements.len()
    }
}

/// Iterate over the elements of a `Path`.
pub struct PathIter<'i> {
    elements: &'i [PathElement],
    pos: usize,
}

impl<'i> PathIter<'i> {
    /// The position is within the elements.
    pub closed spec fn wf(&self) -> bool {
        self.pos <= self.elements@.len()
    }

    /// The elements not yet returned.
    pub closed spec fn remaining(&self) -> Seq<(ScalarModel, PathAccess)> {
        path_model(self.elements@).subrange(self.pos as int, self.elements@.len() as int)
    }

    /// The next element, if any.
    pub fn next(&mut self) -> (r: Option<&'i PathElement>)
        requires
            old(self).wf(),
        ensures
            match r {
                Some(e) => old(self).remaining().len() > 0 && e@ == old(self).remaining()[0]
                    && final(self).remaining() == old(self).remaining().drop_first(),
                None => old(self).remaining().len() == 0 && final(self).remaining()
                    == old(self).remaining(),
            },
            final(self).wf(),
    {
        if self.pos < self.elements.len() {
            let e = &self.elements[self.pos];
            self.pos = self.pos + 1;
            assert(self.remaining() =~= old(self).remaining().drop_first());
            Some(e)
        } else {
            None
        }
    }

    /// Number of elements not yet returned.
    pub fn len(&self) -> (r: usize)
        requires
            self.wf(),
        ensures
            r == self.remaining().len(),
    {
        self.elements.len() - self.pos
    }
}

/// A value that is either borrowed or owned, or a range literal kept as
/// its bounds.
#[derive(Debug)]
pub enum ValueCow<'s> {
    /// An owned value.
    Owned(Value),
    /// A borrowed value.
    Borrowed(&'s Value),
    /// A range literal, materialized only on demand.
    Shared(AssignedRangeValue),
}

impl<'s> View for ValueCow<'s> {
    type V = ValueModel;

    open spec fn view(&self) -> ValueModel {
        match self {
            ValueCow::Owned(v) => v@,
            ValueCow::Borrowed(v) => v@,
            ValueCow::Shared(r) => ValueModel::Array(range_values(r.spec_start(), r.spec_stop())),
        }
    }
}

/// The text a value renders to; a range renders as `start..stop`.
pub open spec fn cow_text(c: ValueCow) -> Seq<char> {
    match c {
        ValueCow::Shared(r) => range_text(r.spec_start(), r.spec_stop()),
        _ => render_text(c@),
    }
}

impl<'s> ValueCow<'s> {
    /// Extracts the owned data, cloning it if it is borrowed and building
    /// the elements of a range.
    pub fn into_owned(self) -> (r: Value)
        ensures
            r@ == self@,
    {
        match self {
            ValueCow::Owned(x) => x,
            ValueCow::Borrowed(x) => x.deep_clone(),
            ValueCow::Shared(r) => {
                let (start, stop) = r.bounds();
                let mut fresh = AssignedRangeValue::new(start, stop);
                fresh.to_value()
            },
        }
    }

    /// The value, borrowed; a range has to be materialized first.
    pub fn as_view(&self) -> (r: &Value)
        requires
            !(self is Shared),
        ensures
            r@ == self@,
    {
        match self {
            ValueCow::Owned(o) => o,
            ValueCow::Borrowed(b) => b,
            ValueCow::Shared(_) => {
                proof {
                    assert(false);
                }
                vstd::pervasive::unreached()
            },
        }
    }

    /// Whether this is a range kept as its bounds.
    pub fn is_shared(&self) -> (r: bool)
        ensures
            r == (self is Shared),
    {
        match self {
            ValueCow::Shared(_) => true,
            _ => false,
        }
    }

    /// The scalar, if the value is one.
    pub fn as_scalar(&self) -> (r: Option<&Scalar>)
        ensures
            match r {
                Some(s) => self@ == ValueModel::Scalar(s@),
                None => !(self@ is Scalar),
            },
    {
        match self {
            ValueCow::Owned(o) => o.as_scalar(),
            ValueCow::Borrowed(b) => b.as_scalar(),
            ValueCow::Shared(_) => None,
        }
    }

    /// The text the value renders to.
    pub fn render(&self) -> (r: String)
        ensures
            r@ == cow_text(*self),
    {
        match self {
            ValueCow::Owned(o) => render(o),
            ValueCow::Borrowed(b) => render(b),
            ValueCow::Shared(r) => r.render(),
        }
    }
}

/// `"first"`
pub open spec fn first_word() -> Seq<char> {
    seq!['f', 'i', 'r', 's', 't']
}

/// `"last"`
pub open spec fn last_word() -> Seq<char> {
    seq!['l', 'a', 's', 't']
}

/// `"size"`
pub open spec fn size_word() -> Seq<char> {
    seq!['s', 'i', 'z', 'e']
}

/// The element at `index` of a sequence, counting from the end when negative.
pub open spec fn array_index(a: Seq<ValueModel>, index: i64) -> Option<ValueModel> {
    let i = if index >= 0 { index as int } else { a.len() + index };
    if 0 <= i < a.len() {
        Some(a[i])
    } else {
        None
    }
}

/// One step of a lookup: array elements by integer index (or `first`, `last`,
/// `size` with dot access), object members by key (or `size` with dot access
/// when there is no such member), and `size` of a scalar's text with dot
/// access.
pub open spec fn spec_augmented_get(v: ValueModel, index: (ScalarModel, PathAccess)) -> Option<
    ValueModel,
> {
    let lookup_access = index.1 == PathAccess::Lookup;
    let key = scalar_text(index.0);
    match v {
        ValueModel::Array(a) => {
            if (!lookup_access || !(index.0 is Str)) && scalar_integer(index.0) is Some {
                array_index(a, scalar_integer(index.0)->0)
            } else if lookup_access {
                None
            } else if key == first_word() {
                if a.len() > 0 { Some(a[0]) } else { None }
            } else if key == last_word() {
                if a.len() > 0 { Some(a.last()) } else { None }
            } else if key == size_word() {
                Some(ValueModel::Scalar(ScalarModel::Integer(a.len() as i64)))
            } else {
                None
            }
        },
        ValueModel::Object(es) => match lookup(es, key) {
            Some(x) => Some(x),
            None => if !lookup_access && key == size_word() {
                Some(ValueModel::Scalar(ScalarModel::Integer(es.len() as i64)))
            } else {
                None
            },
        },
        ValueModel::Scalar(s) => if !lookup_access && key == size_word() {
            Some(
                ValueModel::Scalar(
                    ScalarModel::Integer(crate::kstring::utf8_len(scalar_text(s)) as i64),
                ),
            )
        } else {
            None
        },
        _ => None,
    }
}

/// Follow `path` from `v`, one step at a time.
pub open spec fn spec_try_find(v: ValueModel, path: Seq<(ScalarModel, PathAccess)>) -> Option<
    ValueModel,
>
    decreases path.len(),
{
    if path.len() == 0 {
        Some(v)
    } else {
        match spec_augmented_get(v, path[0]) {
            Some(c) => spec_try_find(c, path.drop_first()),
            None => None,
        }
    }
}

fn key_is(k: &KString, word: &'static str, ghost_word: Ghost<Seq<char>>) -> (r: bool)
    requires
        word@ == ghost_word@,
    ensures
        r == (k@ == ghost_word@),
{
    k.eq_str(word)
}

/// One step of a lookup.
fn augmented_get<'o>(value: &'o Value, index: &PathElement) -> (r: Option<ValueCow<'o>>)
    ensures
        r matches Some(c) ==> !(c is Shared),
        match r {
            Some(c) => spec_augmented_get(value@, index@) == Some(c@),
            None => spec_augmented_get(value@, index@) is None,
        },
{
    proof {
        reveal_strlit("first");
        reveal_strlit("last");
        reveal_strlit("size");
    }
    let first: &'static str = "first";
    let last: &'static str = "last";
    let size: &'static str = "size";
    assert(first@ =~= first_word());
    assert(last@ =~= last_word());
    assert(size@ =~= size_word());
    match value {
        Value::Array(arr) => {
            proof {
                lemma_models_of(arr@);
            }
            let lookup_access = index.is_lookup();
            let scalar = index.value();
            if !lookup_access || !scalar.is_string() {
                if let Some(i) = scalar.to_integer() {
                    let len = arr.len();
                    let pos: i128 = if i >= 0 { i as i128 } else { len as i128 + i as i128 };
                    if 0 <= pos && pos < len as i128 {
                        return Some(ValueCow::Borrowed(&arr[pos as usize]));
                    } else {
                        return None;
                    }
                }
            }
            let key = scalar.to_kstr();
            if lookup_access {
                None
            } else if key_is(&key, first, Ghost(first_word())) {
                if arr.len() > 0 {
                    Some(ValueCow::Borrowed(&arr[0]))
                } else {
                    None
                }
            } else if key_is(&key, last, Ghost(last_word())) {
                if arr.len() > 0 {
                    Some(ValueCow::Borrowed(&arr[arr.len() - 1]))
                } else {
                    None
                }
            } else if key_is(&key, size, Ghost(size_word())) {
                Some(ValueCow::Owned(Value::integer(arr.len() as i64)))
            } else {
                None
            }
        },
        Value::Object(obj) => {
            let lookup_access = index.is_lookup();
            let key = index.value().to_kstr();
            match obj.get(key.as_str()) {
                Some(v) => Some(ValueCow::Borrowed(v)),
                None => {
                    if !lookup_access && key_is(&key, size, Ghost(size_word())) {
                        Some(ValueCow::Owned(Value::integer(obj.len() as i64)))
                    } else {
                        None
                    }
                },
            }
        },
        Value::Scalar(scalar) => {
            if index.is_lookup() {
                None
            } else {
                let key = index.value().to_kstr();
                if key_is(&key, size, Ghost(size_word())) {
                    let text = scalar.to_kstr();
                    let n = text.as_str().as_bytes().len();
                    Some(ValueCow::Owned(Value::integer(n as i64)))
                } else {
                    None
                }
            }
        },
        _ => None,
    }
}

fn try_find_borrowed<'o>(value: &'o Value, path: &[PathElement], i: usize, end: usize) -> (r: Option<
    ValueCow<'o>,
>)
    requires
        i <= end <= path@.len(),
    ensures
        r matches Some(c) ==> !(c is Shared),
        match r {
            Some(c) => spec_try_find(value@, path_model(path@).subrange(i as int, end as int))
                == Some(c@),
            None => spec_try_find(value@, path_model(path@).subrange(i as int, end as int))
                is None,
        },
    decreases end - i,
{
    let ghost rest = path_model(path@).subrange(i as int, end as int);
    if i >= end {
        return Some(ValueCow::Borrowed(value));
    }
    assert(rest[0] == path@[i as int]@);
    assert(rest.drop_first() =~= path_model(path@).subrange(i + 1, end as int));
    let child = augmented_get(value, &path[i]);
    match child {
        Some(ValueCow::Borrowed(c)) => try_find_borrowed(c, path, i + 1, end),
        Some(c) => try_find_owned(c.into_owned(), path, i + 1, end),
        None => None,
    }
}

fn try_find_owned<'o>(value: Value, path: &[PathElement], i: usize, end: usize) -> (r: Option<ValueCow<'o>>)
    requires
        i <= end <= path@.len(),
    ensures
        r matches Some(c) ==> !(c is Shared),
        match r {
            Some(c) => spec_try_find(value@, path_model(path@).subrange(i as int, end as int))
                == Some(c@),
            None => spec_try_find(value@, path_model(path@).subrange(i as int, end as int))
                is None,
        },
    decreases end - i,
{
    let ghost rest = path_model(path@).subrange(i as int, end as int);
    if i >= end {
        return Some(ValueCow::Owned(value));
    }
    assert(rest[0] == path@[i as int]@);
    assert(rest.drop_first() =~= path_model(path@).subrange(i + 1, end as int));
    let child = augmented_get(&value, &path[i]);
    match child {
        Some(c) => {
            let owned = c.into_owned();
            try_find_owned(owned, path, i + 1, end)
        },
        None => None,
    }
}

/// Find a value nested in `value` along the first `end` elements of `path`.
fn try_find_prefix<'o>(value: &'o Value, path: &[PathElement], end: usize) -> (r: Option<ValueCow<'o>>)
    requires
        end <= path@.len(),
    ensures
        r matches Some(c) ==> !(c is Shared),
        match r {
            Some(c) => spec_try_find(value@, path_model(path@).take(end as int)) == Some(c@),
            None => spec_try_find(value@, path_model(path@).take(end as int)) is None,
        },
{
    assert(path_model(path@).subrange(0, end as int) =~= path_model(path@).take(end as int));
    try_find_borrowed(value, path, 0, end)
}

/// Find a value nested in `value` along `path`.
pub fn try_find<'o>(value: &'o Value, path: &[PathElement]) -> (r: Option<ValueCow<'o>>)
    ensures
        r matches Some(c) ==> !(c is Shared),
        match r {
            Some(c) => spec_try_find(value@, path_model(path@)) == Some(c@),
            None => spec_try_find(value@, path_model(path@)) is None,
        },
{
    assert(path_model(path@).take(path@.len() as int) =~= path_model(path@));
    try_find_prefix(value, path, path.len())
}

/// The longest prefix of `path`, of at most `n` elements, that can be
/// followed from `v` (0 when none of positive length can).
pub open spec fn found_prefix(v: ValueModel, path: Seq<(ScalarModel, PathAccess)>, n: int) -> int
    decreases n,
{
    if n <= 0 {
        0
    } else if spec_try_find(v, path.take(n)) is Some {
        n
    } else {
        found_prefix(v, path, n - 1)
    }
}

/// `", "`
pub open spec fn comma_sep() -> Seq<char> {
    seq![',', ' ']
}

/// The indexes that a value offers, as listed in an "Unknown index" error:
/// the index range, `first` and `last` for arrays, the keys for objects.
pub open spec fn available_indexes(parent: ValueModel) -> Seq<char> {
    match parent {
        ValueModel::Array(a) => if a.len() > 0 {
            join(
                seq![seq!['0', '.', '.'] + int_text(((a.len() - 1) as i64) as int), first_word(), last_word()],
                comma_sep(),
            )
        } else {
            join(seq![first_word(), last_word()], comma_sep())
        },
        ValueModel::Object(es) => join(crate::value::keys_of(es), comma_sep()),
        _ => Seq::empty(),
    }
}

/// The rendered texts of the elements of a path.
pub open spec fn path_texts(path: Seq<(ScalarModel, PathAccess)>) -> Seq<Seq<char>> {
    path.map_values(|e: (ScalarModel, PathAccess)| scalar_text(e.0))
}

/// `"Unknown index"`
pub open spec fn unknown_index_msg() -> Seq<char> {
    seq!['U', 'n', 'k', 'n', 'o', 'w', 'n', ' ', 'i', 'n', 'd', 'e', 'x']
}

/// The error reported when `path` cannot be followed from `v`: it names the
/// longest prefix that can be followed, the element after it and what that
/// prefix's value offers instead.
pub open spec fn find_error(v: ValueModel, path: Seq<(ScalarModel, PathAccess)>) -> ErrorModel {
    let k = found_prefix(v, path, path.len() - 1);
    let parent = spec_try_find(v, path.take(k))->0;
    ErrorModel {
        msg: unknown_index_msg(),
        backtrace: seq![
            TraceModel {
                trace: None,
                context: seq![
                    (seq!['v', 'a', 'r', 'i', 'a', 'b', 'l', 'e'], join(path_texts(path.take(k)), seq!['.'])),
                    (
                        seq!['r', 'e', 'q', 'u', 'e', 's', 't', 'e', 'd', ' ', 'i', 'n', 'd', 'e', 'x'],
                        scalar_text(path[k].0),
                    ),
                    (
                        seq!['a', 'v', 'a', 'i', 'l', 'a', 'b', 'l', 'e', ' ', 'i', 'n', 'd', 'e', 'x', 'e', 's'],
                        available_indexes(parent),
                    ),
                ],
            },
        ],
    }
}

proof fn lemma_found_prefix_skip(v: ValueModel, path: Seq<(ScalarModel, PathAccess)>, m: int, e: int)
    requires
        0 <= e <= m,
        forall|j: int| e < j <= m ==> spec_try_find(v, #[trigger] path.take(j)) is None,
    ensures
        found_prefix(v, path, m) == found_prefix(v, path, e),
    decreases m - e,
{
    if m > e {
        lemma_found_prefix_skip(v, path, m - 1, e);
    }
}

/// A `'static` string as an owned `String`.
fn owned(s: &'static str) -> (r: String)
    ensures
        r@ == s@,
{
    s.to_owned()
}

/// The indexes a value offers, as listed in an "Unknown index" error.
fn available_indexes_text(parent: &Value) -> (r: String)
    ensures
        r@ == available_indexes(parent@),
{
    proof {
        reveal_strlit("first");
        reveal_strlit("last");
        reveal_strlit("0..");
        reveal_strlit(", ");
    }
    let sep: &'static str = ", ";
    assert(sep@ =~= comma_sep());
    let mut parts: Vec<String> = Vec::new();
    match parent {
        Value::Array(arr) => {
            proof {
                lemma_models_of(arr@);
            }
            if arr.len() > 0 {
                let mut range: Vec<char> = Vec::new();
                range.push('0');
                range.push('.');
                range.push('.');
                assert(range@ =~= seq!['0', '.', '.']);
                crate::text::push_int_text(&mut range, (arr.len() - 1) as i64);
                parts.push(crate::text::string_of(range.as_slice()));
            }
            let ghost p0 = parts@;
            let f = owned("first");
            assert(f@ =~= first_word());
            parts.push(f);
            let l = owned("last");
            assert(l@ =~= last_word());
            parts.push(l);
            let r = join_strings(&parts, sep);
            if arr.len() > 0 {
                assert(p0.len() == 1);
                assert(p0[0]@ =~= seq!['0', '.', '.'] + int_text(((arr@.len() - 1) as i64) as int));
                assert(strings_model(parts@) =~= seq![
                    seq!['0', '.', '.'] + int_text(((arr@.len() - 1) as i64) as int),
                    first_word(),
                    last_word(),
                ]);
            } else {
                assert(strings_model(parts@) =~= seq![first_word(), last_word()]);
            }
            r
        },
        Value::Object(obj) => {
            let n = obj.len();
            let mut i: usize = 0;
            while i < n
                invariant
                    i <= n,
                    n == obj.model().len(),
                    strings_model(parts@) == crate::value::keys_of(obj.model()).take(i as int),
                decreases n - i,
            {
                let k = obj.key_at(i).as_str().to_owned();
                proof {
                    crate::text::lemma_strings_model_push(parts@, k);
                }
                parts.push(k);
                i = i + 1;
                assert(strings_model(parts@) =~= crate::value::keys_of(obj.model()).take(i as int));
            }
            assert(crate::value::keys_of(obj.model()).take(n as int) =~= crate::value::keys_of(obj.model()));
            join_strings(&parts, sep)
        },
        _ => {
            let r = String::new();
            r
        },
    }
}

/// Find a value nested in `value` along `path`, with an "Unknown index" error
/// that names the deepest value reached when the path cannot be followed.
///
/// The first element of a non-empty path must exist in `value`.
pub fn find<'o>(value: &'o Value, path: &[PathElement]) -> (r: Result<ValueCow<'o>, Error>)
    requires
        path@.len() == 0 || spec_try_find(value@, path_model(path@).take(1)) is Some,
    ensures
        r matches Ok(c) ==> !(c is Shared),
        match r {
            Ok(c) => spec_try_find(value@, path_model(path@)) == Some(c@),
            Err(e) => spec_try_find(value@, path_model(path@)) is None && e@ == find_error(
                value@,
                path_model(path@),
            ),
        },
{
    let ghost pm = path_model(path@);
    if let Some(res) = try_find(value, path) {
        return Ok(res);
    }
    let n = path.len();
    assert(pm.take(n as int) =~= pm);
    if n == 1 {
        proof {
            assert(false);
        }
    }
    let mut cur_idx: usize = 1;
    while cur_idx < n
        invariant
            1 <= cur_idx <= n,
            n == path@.len(),
            pm == path_model(path@),
            n >= 2,
            spec_try_find(value@, pm.take(1)) is Some,
            spec_try_find(value@, pm) is None,
            forall|j: int| n - cur_idx < j <= n - 1 ==> spec_try_find(value@, #[trigger] pm.take(j)) is None,
        decreases n - cur_idx,
    {
        let end = n - cur_idx;
        if let Some(parent) = try_find_prefix(value, path, end) {
            proof {
                lemma_found_prefix_skip(value@, pm, (n - 1) as int, end as int);
            }
            let mut texts: Vec<String> = Vec::new();
            let mut j: usize = 0;
            while j < end
                invariant
                    j <= end < n,
                    n == path@.len(),
                    pm == path_model(path@),
                    strings_model(texts@) == path_texts(pm.take(end as int)).take(j as int),
                decreases end - j,
            {
                let t = path[j].value().to_kstr().into_string();
                proof {
                    crate::text::lemma_strings_model_push(texts@, t);
                }
                texts.push(t);
                j = j + 1;
                assert(strings_model(texts@) =~= path_texts(pm.take(end as int)).take(j as int));
            }
            assert(path_texts(pm.take(end as int)).take(end as int) =~= path_texts(pm.take(end as int)));
            proof {
                reveal_strlit(".");
                reveal_strlit("Unknown index");
                reveal_strlit("variable");
                reveal_strlit("requested index");
                reveal_strlit("available indexes");
            }
            let dot: &'static str = ".";
            assert(dot@ =~= seq!['.']);
            let variable = join_strings(&texts, dot);
            let requested = path[end].value().to_kstr();
            assert(pm[end as int] == path@[end as int]@);
            let available = available_indexes_text(parent.as_view());
            let msg: &'static str = "Unknown index";
            assert(msg@ =~= unknown_index_msg());
            let k1: &'static str = "variable";
            assert(k1@ =~= seq!['v', 'a', 'r', 'i', 'a', 'b', 'l', 'e']);
            let k2: &'static str = "requested index";
            assert(k2@ =~= seq!['r', 'e', 'q', 'u', 'e', 's', 't', 'e', 'd', ' ', 'i', 'n', 'd', 'e', 'x']);
            let k3: &'static str = "available indexes";
            assert(k3@ =~= seq!['a', 'v', 'a', 'i', 'l', 'a', 'b', 'l', 'e', ' ', 'i', 'n', 'd', 'e', 'x', 'e', 's']);
            let e = Error::with_msg(msg)
                .context(KString::from_static(k1), KString::from_string(variable))
                .context(KString::from_static(k2), requested)
                .context(KString::from_static(k3), KString::from_string(available));
            assert(e@.backtrace[0].context =~= find_error(value@, pm).backtrace[0].context);
            assert(e@.backtrace =~= find_error(value@, pm).backtrace);
            return Err(e);
        }
        cur_idx = cur_idx + 1;
    }
    proof {
        assert(spec_try_find(value@, pm.take(1)) is None);
    }
    vstd::pervasive::unreached()
}

/// Following the empty path finds the value itself, and following two
/// joined paths is following the first, then the second from what it found:
/// either both steps find a value, the same one, or the joined path finds
/// nothing.
pub proof fn law_try_find_composes(
    v: ValueModel,
    p: Seq<(ScalarModel, PathAccess)>,
    q: Seq<(ScalarModel, PathAccess)>,
)
    ensures
        spec_try_find(v, Seq::empty()) == Some(v),
        spec_try_find(v, p + q) == (match spec_try_find(v, p) {
            Some(u) => spec_try_find(u, q),
            None => None,
        }),
    decreases p.len(),
{
    if p.len() > 0 {
        assert((p + q)[0] == p[0]);
        assert((p + q).drop_first() =~= p.drop_first() + q);
        match spec_augmented_get(v, p[0]) {
            Some(c) => {
                law_try_find_composes(c, p.drop_first(), q);
            },
            None => {},
        }
    } else {
        assert(p + q =~= q);
    }
}

proof fn lemma_lookup_absent(es: Seq<(Seq<char>, ValueModel)>, k: Seq<char>)
    requires
        forall|i: int| 0 <= i < es.len() ==> #[trigger] es[i].0 != k,
    ensures
        lookup(es, k) is None,
    decreases es.len(),
{
    if es.len() > 0 {
        assert forall|i: int| 0 <= i < es.drop_first().len() implies #[trigger] es.drop_first()[i].0
            != k by {
            assert(es.drop_first()[i] == es[i + 1]);
        }
        lemma_lookup_absent(es.drop_first(), k);
    }
}

/// `size` with dot access on an object that has no member of that name
/// finds the number of its members; with index access (`obj["size"]`) it
/// finds nothing.
pub proof fn law_object_size(es: Seq<(Seq<char>, ValueModel)>)
    requires
        forall|i: int| 0 <= i < es.len() ==> #[trigger] es[i].0 != seq!['s', 'i', 'z', 'e'],
        es.len() <= i64::MAX,
    ensures
        spec_try_find(
            ValueModel::Object(es),
            seq![(ScalarModel::Str(seq!['s', 'i', 'z', 'e']), PathAccess::Dot)],
        ) matches Some(ValueModel::Scalar(ScalarModel::Integer(n))) && n == es.len(),
        spec_try_find(
            ValueModel::Object(es),
            seq![(ScalarModel::Str(seq!['s', 'i', 'z', 'e']), PathAccess::Lookup)],
        ) is None,
{
    let k = seq!['s', 'i', 'z', 'e'];
    lemma_lookup_absent(es, k);
    assert(scalar_text(ScalarModel::Str(k)) == k);
    assert(k == size_word());
    let dot = seq![(ScalarModel::Str(k), PathAccess::Dot)];
    let idx = seq![(ScalarModel::Str(k), PathAccess::Lookup)];
    assert(dot.drop_first().len() == 0);
    assert(idx.drop_first().len() == 0);
    let c = ValueModel::Scalar(ScalarModel::Integer(es.len() as i64));
    assert(spec_augmented_get(ValueModel::Object(es), dot[0]) == Some(c));
    assert(spec_try_find(c, dot.drop_first()) == Some(c));
    assert(spec_augmented_get(ValueModel::Object(es), idx[0]) is None);
}

/// A member of an object is found by its name, with dot or index access,
/// whatever the name (`size` included).
pub proof fn law_object_member(es: Seq<(Seq<char>, ValueModel)>, j: int)
    requires
        0 <= j < es.len(),
        forall|i: int| 0 <= i < j ==> #[trigger] es[i].0 != es[j].0,
    ensures
        spec_try_find(ValueModel::Object(es), seq![(ScalarModel::Str(es[j].0), PathAccess::Dot)])
            == Some(es[j].1),
        spec_try_find(
            ValueModel::Object(es),
            seq![(ScalarModel::Str(es[j].0), PathAccess::Lookup)],
        ) == Some(es[j].1),
    decreases j,
{
    let k = es[j].0;
    lemma_lookup_found(es, j);
    assert(scalar_text(ScalarModel::Str(k)) == k);
    let dot = seq![(ScalarModel::Str(k), PathAccess::Dot)];
    let idx = seq![(ScalarModel::Str(k), PathAccess::Lookup)];
    assert(dot.drop_first().len() == 0);
    assert(idx.drop_first().len() == 0);
    assert(spec_try_find(es[j].1, dot.drop_first()) == Some(es[j].1));
    assert(spec_try_find(es[j].1, idx.drop_first()) == Some(es[j].1));
}

proof fn lemma_lookup_found(es: Seq<(Seq<char>, ValueModel)>, j: int)
    requires
        0 <= j < es.len(),
        forall|i: int| 0 <= i < j ==> #[trigger] es[i].0 != es[j].0,
    ensures
        lookup(es, es[j].0) == Some(es[j].1),
    decreases j,
{
    if j > 0 {
        let t = es.drop_first();
        assert(t[j - 1] == es[j]);
        assert forall|i: int| 0 <= i < j - 1 implies #[trigger] t[i].0 != t[j - 1].0 by {
            assert(t[i] == es[i + 1]);
        }
        lemma_lookup_found(t, j - 1);
    }
}

proof fn lemma_word_not_integer(w: Seq<char>)
    requires
        w.len() > 0,
        !is_digit(w[0]) && w[0] != '-' && w[0] != '+',
    ensures
        scalar_integer(ScalarModel::Str(w)) is None,
{
    assert(!all_digits(w));
}

/// One step into an array: an integer index finds the element at that
/// position, a negative one counts from the end, and an index out of range
/// finds nothing; with dot access `first`, `last` and `size` find the first
/// element, the last element and the number of elements.
pub proof fn law_array_steps(a: Seq<ValueModel>, i: i64, access: PathAccess)
    requires
        a.len() <= i64::MAX,
    ensures
        0 <= i < a.len() ==> spec_try_find(
            ValueModel::Array(a),
            seq![(ScalarModel::Integer(i), access)],
        ) == Some(a[i as int]),
        i < 0 && 0 <= a.len() + i ==> spec_try_find(
            ValueModel::Array(a),
            seq![(ScalarModel::Integer(i), access)],
        ) == Some(a[a.len() + i]),
        (i >= a.len() || a.len() + i < 0) ==> spec_try_find(
            ValueModel::Array(a),
            seq![(ScalarModel::Integer(i), access)],
        ) is None,
        a.len() > 0 ==> spec_try_find(
            ValueModel::Array(a),
            seq![(ScalarModel::Str(seq!['f', 'i', 'r', 's', 't']), PathAccess::Dot)],
        ) == Some(a[0]),
        a.len() > 0 ==> spec_try_find(
            ValueModel::Array(a),
            seq![(ScalarModel::Str(seq!['l', 'a', 's', 't']), PathAccess::Dot)],
        ) == Some(a[a.len() - 1]),
        spec_try_find(
            ValueModel::Array(a),
            seq![(ScalarModel::Str(seq!['s', 'i', 'z', 'e']), PathAccess::Dot)],
        ) matches Some(ValueModel::Scalar(ScalarModel::Integer(n))) && n == a.len(),
{
    let ip = seq![(ScalarModel::Integer(i), access)];
    let fp = seq![(ScalarModel::Str(seq!['f', 'i', 'r', 's', 't']), PathAccess::Dot)];
    let lp = seq![(ScalarModel::Str(seq!['l', 'a', 's', 't']), PathAccess::Dot)];
    let sp = seq![(ScalarModel::Str(seq!['s', 'i', 'z', 'e']), PathAccess::Dot)];
    assert(ip.drop_first().len() == 0);
    assert(fp.drop_first().len() == 0);
    assert(lp.drop_first().len() == 0);
    assert(sp.drop_first().len() == 0);
    assert(scalar_integer(ScalarModel::Integer(i)) == Some(i));
    assert(scalar_text(ScalarModel::Str(seq!['f', 'i', 'r', 's', 't'])) == first_word());
    assert(scalar_text(ScalarModel::Str(seq!['l', 'a', 's', 't'])) == last_word());
    assert(scalar_text(ScalarModel::Str(seq!['s', 'i', 'z', 'e'])) == size_word());
    lemma_word_not_integer(seq!['f', 'i', 'r', 's', 't']);
    lemma_word_not_integer(seq!['l', 'a', 's', 't']);
    lemma_word_not_integer(seq!['s', 'i', 'z', 'e']);
    match spec_augmented_get(ValueModel::Array(a), ip[0]) {
        Some(c) => {
            assert(spec_try_find(c, ip.drop_first()) == Some(c));
        },
        None => {},
    }
    if a.len() > 0 {
        assert(spec_try_find(a[0], fp.drop_first()) == Some(a[0]));
        assert(spec_try_find(a.last(), lp.drop_first()) == Some(a.last()));
    }
    let c = ValueModel::Scalar(ScalarModel::Integer(a.len() as i64));
    assert(spec_try_find(c, sp.drop_first()) == Some(c));
}

} // verus!
