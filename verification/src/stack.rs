//! The rendering runtime: a chain of frames that answer variable lookups,
//! innermost frame first.

use crate::error::{Error, ErrorModel, TraceModel};
use crate::find::{
    find, find_error, path_model, spec_augmented_get, spec_try_find, try_find, PathAccess,
    PathElement, ValueCow,
};
use crate::kstring::KString;
use crate::registers::Registers;
use crate::value::{lookup, scalar_text, Object, ScalarModel, Value, ValueModel};
use vstd::prelude::*;

verus! {

/// A path as views.
pub type PathModel = Seq<(ScalarModel, PathAccess)>;

/// `"Unknown variable"`
pub open spec fn unknown_variable_msg() -> Seq<char> {
    seq!['U', 'n', 'k', 'n', 'o', 'w', 'n', ' ', 'v', 'a', 'r', 'i', 'a', 'b', 'l', 'e']
}

/// `"nil"`
pub open spec fn nil_word() -> Seq<char> {
    seq!['n', 'i', 'l']
}

/// The error for a variable that no frame binds.
pub open spec fn unknown_variable(key: Seq<char>) -> ErrorModel {
    ErrorModel {
        msg: unknown_variable_msg(),
        backtrace: seq![
            TraceModel {
                trace: None,
                context: seq![
                    (seq!['r', 'e', 'q', 'u', 'e', 's', 't', 'e', 'd', ' ', 'v', 'a', 'r', 'i', 'a', 'b', 'l', 'e'], key),
                ],
            },
        ],
    }
}

/// The root name a path looks up: the text of its first element.
pub open spec fn root_key(path: PathModel) -> Seq<char> {
    scalar_text(path[0].0)
}

/// Builds the "Unknown variable" error for `key`.
pub fn unknown_variable_error(key: KString) -> (r: Error)
    ensures
        r@ == unknown_variable(key@),
{
    let msg: &'static str = "Unknown variable";
    let name: &'static str = "requested variable";
    proof {
        reveal_strlit("Unknown variable");
        reveal_strlit("requested variable");
    }
    assert(msg@ =~= unknown_variable_msg());
    assert(name@ =~= seq!['r', 'e', 'q', 'u', 'e', 's', 't', 'e', 'd', ' ', 'v', 'a', 'r', 'i', 'a', 'b', 'l', 'e']);
    let ghost km = key@;
    let e = Error::with_msg(msg).context(KString::from_static(name), key);
    assert(e@.backtrace[0].context =~= unknown_variable(km).backtrace[0].context);
    assert(e@.backtrace =~= unknown_variable(km).backtrace);
    e
}

/// Builds the error for a lookup with an empty path.
fn unknown_nil_error() -> (r: Error)
    ensures
        r@ == unknown_variable(nil_word()),
{
    let nil: &'static str = "nil";
    proof {
        reveal_strlit("nil");
    }
    assert(nil@ =~= nil_word());
    unknown_variable_error(KString::from_static(nil))
}

/// The lookup result of a frame's own data for `path`, when the data binds
/// the root name.
pub open spec fn data_get(data: Seq<(Seq<char>, ValueModel)>, path: PathModel) -> Result<
    ValueModel,
    ErrorModel,
> {
    match spec_try_find(ValueModel::Object(data), path) {
        Some(v) => Ok(v),
        None => Err(find_error(ValueModel::Object(data), path)),
    }
}

/// The names held by a list of keys.
pub open spec fn key_views(v: Seq<KString>) -> Seq<Seq<char>> {
    v.map_values(|k: KString| k@)
}

/// The names a frame's data binds.
pub open spec fn data_roots(data: ValueModel) -> Set<Seq<char>> {
    crate::value::keys_of(entries_of(data)).to_set()
}

/// Whether `roots` holds the name `k`.
fn holds_root(roots: &Vec<KString>, k: &KString) -> (r: bool)
    ensures
        r == key_views(roots@).contains(k@),
{
    let mut i: usize = 0;
    while i < roots.len()
        invariant
            i <= roots@.len(),
            forall|j: int| 0 <= j < i ==> roots@[j]@ != k@,
        decreases roots@.len() - i,
    {
        if roots[i].eq_str(k.as_str()) {
            assert(key_views(roots@)[i as int] == k@);
            return true;
        }
        i = i + 1;
    }
    proof {
        if key_views(roots@).contains(k@) {
            let j = choose|j: int| 0 <= j < key_views(roots@).len() && key_views(roots@)[j] == k@;
            assert(roots@[j]@ == k@);
        }
    }
    false
}

/// Adds to `roots` the names `data` binds that it lacks.
fn add_roots(roots: &mut Vec<KString>, data: &Value)
    requires
        key_views(old(roots)@).no_duplicates(),
    ensures
        key_views(final(roots)@).no_duplicates(),
        key_views(final(roots)@).to_set() == key_views(old(roots)@).to_set() + data_roots(data@),
{
    let ghost start = key_views(roots@).to_set();
    match data {
        Value::Object(o) => {
            let ghost keys = crate::value::keys_of(o.model());
            let mut i: usize = 0;
            let n = o.len();
            while i < n
                invariant
                    i <= n,
                    n == o.model().len(),
                    keys == crate::value::keys_of(o.model()),
                    key_views(roots@).no_duplicates(),
                    key_views(roots@).to_set() == start + keys.take(i as int).to_set(),
                decreases n - i,
            {
                let k = o.key_at(i);
                let ghost before = key_views(roots@);
                if !holds_root(roots, k) {
                    roots.push(k.clone());
                    proof {
                        assert(key_views(roots@) =~= before.push(k@));
                        assert(key_views(roots@)[before.len() as int] == k@);
                    }
                }
                proof {
                    let after = key_views(roots@);
                    let want = start + keys.take(i + 1).to_set();
                    assert(keys[i as int] == k@);
                    assert(keys.take(i + 1) =~= keys.take(i as int).push(k@));
                    assert(keys.take(i + 1)[i as int] == k@);
                    assert(after.contains(k@));
                    assert forall|x: Seq<char>| after.contains(x) implies want.contains(x) by {
                        if x != k@ {
                            let j = choose|j: int| 0 <= j < after.len() && after[j] == x;
                            assert(before[j] == x);
                            assert(before.to_set().contains(x));
                            if keys.take(i as int).contains(x) {
                                let t = keys.take(i as int);
                                let m = choose|m: int| 0 <= m < t.len() && t[m] == x;
                                assert(keys.take(i + 1)[m] == x);
                            }
                        }
                    }
                    assert forall|x: Seq<char>| want.contains(x) implies after.contains(x) by {
                        if x != k@ {
                            if keys.take(i + 1).contains(x) {
                                let t = keys.take(i + 1);
                                let m = choose|m: int| 0 <= m < t.len() && t[m] == x;
                                assert(keys.take(i as int)[m] == x);
                                assert(keys.take(i as int).to_set().contains(x));
                            }
                            assert(before.to_set().contains(x));
                            let j = choose|j: int| 0 <= j < before.len() && before[j] == x;
                            assert(after[j] == x);
                        }
                    }
                    assert(after.to_set() =~= want);
                }
                i = i + 1;
            }
            assert(keys.take(n as int) =~= keys);
            assert(data_roots(data@) =~= keys.to_set());
        },
        _ => {
            assert(data_roots(data@) =~= Set::<Seq<char>>::empty());
            assert(key_views(roots@).to_set() =~= start + data_roots(data@));
        },
    }
}

/// State for rendering a template: variable lookup through the frames.
pub trait Runtime {
    /// The name of the active template.
    spec fn spec_name(&self) -> Option<Seq<char>>;

    /// Lenient lookup of `path`.
    spec fn spec_try_get(&self, path: PathModel) -> Option<ValueModel>;

    /// Strict lookup of `path`.
    spec fn spec_get(&self, path: PathModel) -> Result<ValueModel, ErrorModel>;

    /// The value of a global binding.
    spec fn spec_global(&self, name: Seq<char>) -> Option<ValueModel>;

    /// The value of an increment/decrement counter.
    spec fn spec_index(&self, name: Seq<char>) -> Option<ValueModel>;

    /// Whether a frame below takes global bindings.
    spec fn has_globals(&self) -> bool;

    /// Whether a frame below takes counters.
    spec fn has_indexes(&self) -> bool;

    /// The names of the root variables the frames bind.
    spec fn spec_roots(&self) -> Set<Seq<char>>;

    /// The names of the root variables, each once.
    fn roots(&self) -> (r: Vec<KString>)
        ensures
            key_views(r@).no_duplicates(),
            key_views(r@).to_set() == self.spec_roots();

    /// The name of the currently active template.
    fn name(&self) -> (r: Option<&KString>)
        ensures
            match r {
                Some(n) => self.spec_name() == Some(n@),
                None => self.spec_name() is None,
            };

    /// Looks `path` up; `None` when it cannot be followed.
    fn try_get(&self, path: &[PathElement]) -> (r: Option<ValueCow<'_>>)
        ensures
            r matches Some(c) ==> !(c is Shared),
            match r {
                Some(v) => self.spec_try_get(path_model(path@)) == Some(v@),
                None => self.spec_try_get(path_model(path@)) is None,
            };

    /// Looks `path` up; an error says what could not be found.
    fn get(&self, path: &[PathElement]) -> (r: Result<ValueCow<'_>, Error>)
        ensures
            r matches Ok(c) ==> !(c is Shared),
            match r {
                Ok(v) => self.spec_get(path_model(path@)) == Ok::<ValueModel, ErrorModel>(v@),
                Err(e) => self.spec_get(path_model(path@)) == Err::<ValueModel, ErrorModel>(e@),
            };

    /// Sets a global binding, returning the value it replaces.
    fn set_global(&mut self, name: KString, val: Value) -> (r: Option<Value>)
        requires
            old(self).has_globals(),
        ensures
            final(self).has_globals(),
            final(self).has_indexes() == old(self).has_indexes(),
            final(self).spec_global(name@) == Some(val@),
            forall|k: Seq<char>| k != name@ ==> final(self).spec_global(k) == old(self).spec_global(k),
            forall|k: Seq<char>| final(self).spec_index(k) == old(self).spec_index(k),
            match r {
                Some(v) => old(self).spec_global(name@) == Some(v@),
                None => old(self).spec_global(name@) is None,
            };

    /// Sets an increment/decrement counter, returning the value it replaces.
    fn set_index(&mut self, name: KString, val: Value) -> (r: Option<Value>)
        requires
            old(self).has_indexes(),
        ensures
            final(self).has_indexes(),
            final(self).has_globals() == old(self).has_globals(),
            final(self).spec_index(name@) == Some(val@),
            forall|k: Seq<char>| k != name@ ==> final(self).spec_index(k) == old(self).spec_index(k),
            forall|k: Seq<char>| final(self).spec_global(k) == old(self).spec_global(k),
            match r {
                Some(v) => old(self).spec_index(name@) == Some(v@),
                None => old(self).spec_index(name@) is None,
            };

    /// The value of an increment/decrement counter.
    fn get_index(&self, name: &str) -> (r: Option<Value>)
        ensures
            match r {
                Some(v) => self.spec_index(name@) == Some(v@),
                None => self.spec_index(name@) is None,
            };

    /// The registers the frames answer with.
    spec fn spec_runtime_registers(&self) -> Registers;

    /// Per-render registers.
    fn registers(&self) -> (r: &Registers)
        ensures
            *r == self.spec_runtime_registers();
}

/// Whether missing variables raise under `registers`.
pub open spec fn strict_variables(registers: Registers) -> bool {
    match registers.policy {
        Some(p) => p.config().strict_variables,
        None => true,
    }
}

/// The bottom of every runtime: no variables, only registers.
#[derive(Debug)]
pub struct RuntimeCore {
    registers: Registers,
}

impl RuntimeCore {
    /// The registers.
    pub closed spec fn spec_registers(&self) -> Registers {
        self.registers
    }

    /// A runtime with fresh registers.
    pub fn new() -> (r: Self)
        ensures
            r.spec_registers().policy is None,
            r.spec_registers().live_scope_session is None,
            r.spec_registers().render_tag_depth == 0,
    {
        RuntimeCore { registers: Registers::new() }
    }

    /// A runtime with the given registers.
    pub fn with_registers(registers: Registers) -> (r: Self)
        ensures
            r.spec_registers() == registers,
    {
        RuntimeCore { registers }
    }
}

impl Runtime for RuntimeCore {
    open spec fn spec_name(&self) -> Option<Seq<char>> {
        None
    }

    open spec fn spec_try_get(&self, path: PathModel) -> Option<ValueModel> {
        None
    }

    open spec fn spec_get(&self, path: PathModel) -> Result<ValueModel, ErrorModel> {
        if !strict_variables(self.spec_registers()) {
            Ok(ValueModel::Nil)
        } else if path.len() == 0 {
            Err(unknown_variable(nil_word()))
        } else {
            Err(unknown_variable(root_key(path)))
        }
    }

    open spec fn spec_global(&self, name: Seq<char>) -> Option<ValueModel> {
        None
    }

    open spec fn spec_index(&self, name: Seq<char>) -> Option<ValueModel> {
        None
    }

    open spec fn has_globals(&self) -> bool {
        false
    }

    open spec fn has_indexes(&self) -> bool {
        false
    }

    open spec fn spec_roots(&self) -> Set<Seq<char>> {
        Set::empty()
    }

    fn roots(&self) -> (r: Vec<KString>) {
        let r: Vec<KString> = Vec::new();
        assert(key_views(r@).to_set() =~= Set::<Seq<char>>::empty());
        r
    }

    fn name(&self) -> (r: Option<&KString>) {
        None
    }

    fn try_get(&self, path: &[PathElement]) -> (r: Option<ValueCow<'_>>) {
        None
    }

    fn get(&self, path: &[PathElement]) -> (r: Result<ValueCow<'_>, Error>) {
        if !crate::registers::strict_variables_enabled(&self.registers) {
            return Ok(ValueCow::Owned(Value::Nil));
        }
        if path.len() == 0 {
            Err(unknown_nil_error())
        } else {
            Err(unknown_variable_error(path[0].value().to_kstr()))
        }
    }

    fn set_global(&mut self, name: KString, val: Value) -> (r: Option<Value>) {
        proof {
            assert(false);
        }
        None
    }

    fn set_index(&mut self, name: KString, val: Value) -> (r: Option<Value>) {
        proof {
            assert(false);
        }
        None
    }

    fn get_index(&self, name: &str) -> (r: Option<Value>) {
        None
    }

    open spec fn spec_runtime_registers(&self) -> Registers {
        self.spec_registers()
    }

    fn registers(&self) -> (r: &Registers) {
        &self.registers
    }
}

/// The entries of an object value (none for other values).
pub open spec fn entries_of(v: ValueModel) -> Seq<(Seq<char>, ValueModel)> {
    match v {
        ValueModel::Object(es) => es,
        _ => Seq::empty(),
    }
}

/// Whether a frame's data binds the root name of `path`.
pub open spec fn binds_root(data: Seq<(Seq<char>, ValueModel)>, path: PathModel) -> bool {
    path.len() > 0 && lookup(data, root_key(path)) is Some
}

/// Looks `path` up in `data`, which binds its root name.
fn get_in_data<'o>(data: &'o Value, path: &[PathElement]) -> (r: Result<ValueCow<'o>, Error>)
    requires
        data@ matches ValueModel::Object(es) && binds_root(es, path_model(path@)),
    ensures
        r matches Ok(c) ==> !(c is Shared),
        data@ matches ValueModel::Object(es) && match r {
            Ok(v) => data_get(es, path_model(path@)) == Ok::<ValueModel, ErrorModel>(v@),
            Err(e) => data_get(es, path_model(path@)) == Err::<ValueModel, ErrorModel>(e@),
        },
{
    let ghost pm = path_model(path@);
    proof {
        let es = data@->Object_0;
        let t = pm.take(1);
        assert(t[0] == pm[0]);
        let c = lookup(es, root_key(pm))->0;
        assert(crate::find::spec_augmented_get(data@, t[0]) == Some(c));
        assert(t.drop_first() =~= Seq::<(ScalarModel, PathAccess)>::empty());
        assert(spec_try_find(c, t.drop_first()) == Some(c));
        assert(spec_try_find(data@, t) == Some(c));
    }
    match find(data, path) {
        Ok(v) => Ok(v),
        Err(e) => Err(e),
    }
}

/// The root name of a non-empty path.
fn root_name(path: &[PathElement]) -> (r: KString)
    requires
        path@.len() > 0,
    ensures
        r@ == root_key(path_model(path@)),
{
    path[0].value().to_kstr()
}

/// Layers variables on top of an existing runtime.
#[derive(Debug)]
pub struct StackFrame<P> {
    parent: P,
    name: Option<KString>,
    data: Value,
}

impl<P: Runtime> StackFrame<P> {
    /// The frame's own bindings.
    pub closed spec fn spec_data(&self) -> Seq<(Seq<char>, ValueModel)> {
        entries_of(self.data@)
    }

    /// The runtime below.
    pub closed spec fn spec_parent(&self) -> P {
        self.parent
    }

    /// The data is an object.
    pub closed spec fn wf(&self) -> bool {
        self.data@ is Object
    }

    /// Layers `data` on top of `parent`.
    pub fn new(parent: P, data: Object) -> (r: Self)
        ensures
            r.wf(),
            r.spec_data() == data.model(),
            r.spec_parent() == parent,
            r.spec_name() == parent.spec_name(),
    {
        StackFrame { parent, name: None, data: Value::Object(data) }
    }

    /// Names the current context.
    pub fn with_name(self, name: KString) -> (r: Self)
        ensures
            r.spec_name() == Some(name@),
            r.spec_data() == self.spec_data(),
            r.spec_parent() == self.spec_parent(),
            r.wf() == self.wf(),
    {
        StackFrame { parent: self.parent, name: Some(name), data: self.data }
    }

    /// The runtime below, once this frame is done.
    pub fn into_parent(self) -> (r: P)
        ensures
            r == self.spec_parent(),
    {
        self.parent
    }
}

impl<P: Runtime> Runtime for StackFrame<P> {
    closed spec fn spec_name(&self) -> Option<Seq<char>> {
        match self.name {
            Some(n) => Some(n@),
            None => self.parent.spec_name(),
        }
    }

    open spec fn spec_try_get(&self, path: PathModel) -> Option<ValueModel> {
        if path.len() == 0 {
            None
        } else if binds_root(self.spec_data(), path) {
            spec_try_find(ValueModel::Object(self.spec_data()), path)
        } else {
            self.spec_parent().spec_try_get(path)
        }
    }

    open spec fn spec_get(&self, path: PathModel) -> Result<ValueModel, ErrorModel> {
        if path.len() == 0 {
            Err(unknown_variable(nil_word()))
        } else if binds_root(self.spec_data(), path) {
            data_get(self.spec_data(), path)
        } else {
            self.spec_parent().spec_get(path)
        }
    }

    open spec fn spec_global(&self, name: Seq<char>) -> Option<ValueModel> {
        self.spec_parent().spec_global(name)
    }

    open spec fn spec_index(&self, name: Seq<char>) -> Option<ValueModel> {
        self.spec_parent().spec_index(name)
    }

    closed spec fn has_globals(&self) -> bool {
        self.parent.has_globals()
    }

    closed spec fn has_indexes(&self) -> bool {
        self.parent.has_indexes()
    }

    open spec fn spec_roots(&self) -> Set<Seq<char>> {
        self.spec_parent().spec_roots() + crate::value::keys_of(self.spec_data()).to_set()
    }

    fn roots(&self) -> (r: Vec<KString>) {
        let mut r = self.parent.roots();
        add_roots(&mut r, &self.data);
        r
    }

    fn name(&self) -> (r: Option<&KString>) {
        match &self.name {
            Some(n) => Some(n),
            None => self.parent.name(),
        }
    }

    fn try_get(&self, path: &[PathElement]) -> (r: Option<ValueCow<'_>>) {
        if path.len() == 0 {
            return None;
        }
        let key = root_name(path);
        match &self.data {
            Value::Object(o) => {
                if o.contains_key(key.as_str()) {
                    return try_find(&self.data, path);
                }
            },
            _ => {},
        }
        self.parent.try_get(path)
    }

    fn get(&self, path: &[PathElement]) -> (r: Result<ValueCow<'_>, Error>) {
        if path.len() == 0 {
            return Err(unknown_nil_error());
        }
        let key = root_name(path);
        match &self.data {
            Value::Object(o) => {
                if o.contains_key(key.as_str()) {
                    return get_in_data(&self.data, path);
                }
            },
            _ => {},
        }
        self.parent.get(path)
    }

    fn set_global(&mut self, name: KString, val: Value) -> (r: Option<Value>) {
        self.parent.set_global(name, val)
    }

    fn set_index(&mut self, name: KString, val: Value) -> (r: Option<Value>) {
        self.parent.set_index(name, val)
    }

    fn get_index(&self, name: &str) -> (r: Option<Value>) {
        self.parent.get_index(name)
    }

    open spec fn spec_runtime_registers(&self) -> Registers {
        self.spec_parent().spec_runtime_registers()
    }

    fn registers(&self) -> (r: &Registers) {
        self.parent.registers()
    }
}

/// Looks `path` up in `data`, owning the result.
fn owned_try_find(data: &Value, path: &[PathElement]) -> (r: Option<ValueCow<'static>>)
    ensures
        r matches Some(c) ==> !(c is Shared),
        match r {
            Some(v) => spec_try_find(data@, path_model(path@)) == Some(v@),
            None => spec_try_find(data@, path_model(path@)) is None,
        },
{
    match try_find(data, path) {
        Some(v) => Some(ValueCow::Owned(v.into_owned())),
        None => None,
    }
}

/// Holds the global bindings that templates assign.
#[derive(Debug)]
pub struct GlobalFrame<P> {
    parent: P,
    data: Value,
}

impl<P: Runtime> GlobalFrame<P> {
    /// The global bindings.
    pub closed spec fn spec_data(&self) -> Seq<(Seq<char>, ValueModel)> {
        entries_of(self.data@)
    }

    /// The runtime below.
    pub closed spec fn spec_parent(&self) -> P {
        self.parent
    }

    /// Overrides globals for `parent`; there are none yet.
    pub fn new(parent: P) -> (r: Self)
        ensures
            r.spec_data() == Seq::<(Seq<char>, ValueModel)>::empty(),
            r.spec_parent() == parent,
            r.has_globals(),
            r.has_indexes() == parent.has_indexes(),
    {
        GlobalFrame { parent, data: Value::Object(Object::new()) }
    }
}

impl<P: Runtime> Runtime for GlobalFrame<P> {
    closed spec fn spec_name(&self) -> Option<Seq<char>> {
        self.parent.spec_name()
    }

    open spec fn spec_try_get(&self, path: PathModel) -> Option<ValueModel> {
        if path.len() == 0 {
            None
        } else if binds_root(self.spec_data(), path) {
            spec_try_find(ValueModel::Object(self.spec_data()), path)
        } else {
            self.spec_parent().spec_try_get(path)
        }
    }

    open spec fn spec_get(&self, path: PathModel) -> Result<ValueModel, ErrorModel> {
        if path.len() == 0 {
            Err(unknown_variable(nil_word()))
        } else if binds_root(self.spec_data(), path) {
            data_get(self.spec_data(), path)
        } else {
            self.spec_parent().spec_get(path)
        }
    }

    open spec fn spec_global(&self, name: Seq<char>) -> Option<ValueModel> {
        lookup(self.spec_data(), name)
    }

    open spec fn spec_index(&self, name: Seq<char>) -> Option<ValueModel> {
        self.spec_parent().spec_index(name)
    }

    closed spec fn has_globals(&self) -> bool {
        self.data@ is Object
    }

    closed spec fn has_indexes(&self) -> bool {
        self.parent.has_indexes()
    }

    open spec fn spec_roots(&self) -> Set<Seq<char>> {
        self.spec_parent().spec_roots() + crate::value::keys_of(self.spec_data()).to_set()
    }

    fn roots(&self) -> (r: Vec<KString>) {
        let mut r = self.parent.roots();
        add_roots(&mut r, &self.data);
        r
    }

    fn name(&self) -> (r: Option<&KString>) {
        self.parent.name()
    }

    fn try_get(&self, path: &[PathElement]) -> (r: Option<ValueCow<'_>>) {
        if path.len() == 0 {
            return None;
        }
        let key = root_name(path);
        match &self.data {
            Value::Object(o) => {
                if o.contains_key(key.as_str()) {
                    return owned_try_find(&self.data, path);
                }
            },
            _ => {},
        }
        self.parent.try_get(path)
    }

    fn get(&self, path: &[PathElement]) -> (r: Result<ValueCow<'_>, Error>) {
        if path.len() == 0 {
            return Err(unknown_nil_error());
        }
        let key = root_name(path);
        match &self.data {
            Value::Object(o) => {
                if o.contains_key(key.as_str()) {
                    return match get_in_data(&self.data, path) {
                        Ok(v) => Ok(ValueCow::Owned(v.into_owned())),
                        Err(e) => Err(e),
                    };
                }
            },
            _ => {},
        }
        self.parent.get(path)
    }

    fn set_global(&mut self, name: KString, val: Value) -> (r: Option<Value>) {
        let ghost kn = name@;
        match &mut self.data {
            Value::Object(o) => {
                let ghost before = o.model();
                let r = o.insert(name, val);
                assert forall|k: Seq<char>| k != kn implies lookup(o.model(), k) == lookup(
                    before,
                    k,
                ) by {
                    assert(o.spec_get(k) == lookup(before, k));
                }
                r
            },
            _ => {
                proof {
                    assert(false);
                }
                None
            },
        }
    }

    fn set_index(&mut self, name: KString, val: Value) -> (r: Option<Value>) {
        self.parent.set_index(name, val)
    }

    fn get_index(&self, name: &str) -> (r: Option<Value>) {
        self.parent.get_index(name)
    }

    open spec fn spec_runtime_registers(&self) -> Registers {
        self.spec_parent().spec_runtime_registers()
    }

    fn registers(&self) -> (r: &Registers) {
        self.parent.registers()
    }
}

/// Holds the counters of the `increment` and `decrement` tags.
#[derive(Debug)]
pub struct IndexFrame<P> {
    parent: P,
    data: Value,
}

impl<P: Runtime> IndexFrame<P> {
    /// The counters.
    pub closed spec fn spec_data(&self) -> Seq<(Seq<char>, ValueModel)> {
        entries_of(self.data@)
    }

    /// The runtime below.
    pub closed spec fn spec_parent(&self) -> P {
        self.parent
    }

    /// Counters for `parent`; there are none yet.
    pub fn new(parent: P) -> (r: Self)
        ensures
            r.spec_data() == Seq::<(Seq<char>, ValueModel)>::empty(),
            r.spec_parent() == parent,
            r.has_indexes(),
            r.has_globals() == parent.has_globals(),
    {
        IndexFrame { parent, data: Value::Object(Object::new()) }
    }
}

impl<P: Runtime> Runtime for IndexFrame<P> {
    closed spec fn spec_name(&self) -> Option<Seq<char>> {
        self.parent.spec_name()
    }

    open spec fn spec_try_get(&self, path: PathModel) -> Option<ValueModel> {
        if path.len() == 0 {
            None
        } else if binds_root(self.spec_data(), path) {
            spec_try_find(ValueModel::Object(self.spec_data()), path)
        } else {
            self.spec_parent().spec_try_get(path)
        }
    }

    open spec fn spec_get(&self, path: PathModel) -> Result<ValueModel, ErrorModel> {
        if path.len() == 0 {
            Err(unknown_variable(nil_word()))
        } else if binds_root(self.spec_data(), path) {
            data_get(self.spec_data(), path)
        } else {
            self.spec_parent().spec_get(path)
        }
    }

    open spec fn spec_global(&self, name: Seq<char>) -> Option<ValueModel> {
        self.spec_parent().spec_global(name)
    }

    open spec fn spec_index(&self, name: Seq<char>) -> Option<ValueModel> {
        lookup(self.spec_data(), name)
    }

    closed spec fn has_globals(&self) -> bool {
        self.parent.has_globals()
    }

    closed spec fn has_indexes(&self) -> bool {
        self.data@ is Object
    }

    open spec fn spec_roots(&self) -> Set<Seq<char>> {
        self.spec_parent().spec_roots() + crate::value::keys_of(self.spec_data()).to_set()
    }

    fn roots(&self) -> (r: Vec<KString>) {
        let mut r = self.parent.roots();
        add_roots(&mut r, &self.data);
        r
    }

    fn name(&self) -> (r: Option<&KString>) {
        self.parent.name()
    }

    fn try_get(&self, path: &[PathElement]) -> (r: Option<ValueCow<'_>>) {
        if path.len() == 0 {
            return None;
        }
        let key = root_name(path);
        match &self.data {
            Value::Object(o) => {
                if o.contains_key(key.as_str()) {
                    return owned_try_find(&self.data, path);
                }
            },
            _ => {},
        }
        self.parent.try_get(path)
    }

    fn get(&self, path: &[PathElement]) -> (r: Result<ValueCow<'_>, Error>) {
        if path.len() == 0 {
            return Err(unknown_nil_error());
        }
        let key = root_name(path);
        match &self.data {
            Value::Object(o) => {
                if o.contains_key(key.as_str()) {
                    return match get_in_data(&self.data, path) {
                        Ok(v) => Ok(ValueCow::Owned(v.into_owned())),
                        Err(e) => Err(e),
                    };
                }
            },
            _ => {},
        }
        self.parent.get(path)
    }

    fn set_global(&mut self, name: KString, val: Value) -> (r: Option<Value>) {
        self.parent.set_global(name, val)
    }

    fn set_index(&mut self, name: KString, val: Value) -> (r: Option<Value>) {
        let ghost kn = name@;
        match &mut self.data {
            Value::Object(o) => {
                let ghost before = o.model();
                let r = o.insert(name, val);
                assert forall|k: Seq<char>| k != kn implies lookup(o.model(), k) == lookup(
                    before,
                    k,
                ) by {
                    assert(o.spec_get(k) == lookup(before, k));
                }
                r
            },
            _ => {
                proof {
                    assert(false);
                }
                None
            },
        }
    }

    fn get_index(&self, name: &str) -> (r: Option<Value>) {
        match &self.data {
            Value::Object(o) => match o.get(name) {
                Some(v) => Some(v.deep_clone()),
                None => None,
            },
            _ => None,
        }
    }

    open spec fn spec_runtime_registers(&self) -> Registers {
        self.spec_parent().spec_runtime_registers()
    }

    fn registers(&self) -> (r: &Registers) {
        self.parent.registers()
    }
}

/// A frame whose variables hide every frame below it; only partials and
/// global bindings still reach the parent. It has registers of its own.
#[derive(Debug)]
pub struct SandboxedStackFrame<P> {
    parent: P,
    name: Option<KString>,
    data: Value,
    registers: Registers,
}

impl<P: Runtime> SandboxedStackFrame<P> {
    /// The frame's own bindings.
    pub closed spec fn spec_data(&self) -> Seq<(Seq<char>, ValueModel)> {
        entries_of(self.data@)
    }

    /// The runtime below.
    pub closed spec fn spec_parent(&self) -> P {
        self.parent
    }

    /// A sandbox holding `data` on top of `parent`.
    pub fn new(parent: P, data: Object) -> (r: Self)
        ensures
            r.spec_data() == data.model(),
            r.spec_parent() == parent,
            r.spec_name() == parent.spec_name(),
    {
        SandboxedStackFrame { parent, name: None, data: Value::Object(data), registers: Registers::new() }
    }

    /// Names the current context.
    pub fn with_name(self, name: KString) -> (r: Self)
        ensures
            r.spec_name() == Some(name@),
            r.spec_data() == self.spec_data(),
            r.spec_parent() == self.spec_parent(),
    {
        SandboxedStackFrame {
            parent: self.parent,
            name: Some(name),
            data: self.data,
            registers: self.registers,
        }
    }

    /// The runtime below, once this frame is done.
    pub fn into_parent(self) -> (r: P)
        ensures
            r == self.spec_parent(),
    {
        self.parent
    }
}

impl<P: Runtime> Runtime for SandboxedStackFrame<P> {
    closed spec fn spec_name(&self) -> Option<Seq<char>> {
        match self.name {
            Some(n) => Some(n@),
            None => self.parent.spec_name(),
        }
    }

    open spec fn spec_try_get(&self, path: PathModel) -> Option<ValueModel> {
        if path.len() == 0 {
            None
        } else if binds_root(self.spec_data(), path) {
            spec_try_find(ValueModel::Object(self.spec_data()), path)
        } else {
            None
        }
    }

    open spec fn spec_get(&self, path: PathModel) -> Result<ValueModel, ErrorModel> {
        if path.len() == 0 {
            Err(unknown_variable(nil_word()))
        } else if binds_root(self.spec_data(), path) && spec_try_find(
            ValueModel::Object(self.spec_data()),
            path,
        ) is Some {
            Ok(spec_try_find(ValueModel::Object(self.spec_data()), path)->0)
        } else {
            Err(unknown_variable(root_key(path)))
        }
    }

    open spec fn spec_global(&self, name: Seq<char>) -> Option<ValueModel> {
        self.spec_parent().spec_global(name)
    }

    open spec fn spec_index(&self, name: Seq<char>) -> Option<ValueModel> {
        self.spec_parent().spec_index(name)
    }

    closed spec fn has_globals(&self) -> bool {
        self.parent.has_globals()
    }

    closed spec fn has_indexes(&self) -> bool {
        self.parent.has_indexes()
    }

    open spec fn spec_roots(&self) -> Set<Seq<char>> {
        crate::value::keys_of(self.spec_data()).to_set()
    }

    fn roots(&self) -> (r: Vec<KString>) {
        let mut r: Vec<KString> = Vec::new();
        assert(key_views(r@).to_set() =~= Set::<Seq<char>>::empty());
        add_roots(&mut r, &self.data);
        assert(key_views(r@).to_set() =~= data_roots(self.data@));
        r
    }

    fn name(&self) -> (r: Option<&KString>) {
        match &self.name {
            Some(n) => Some(n),
            None => self.parent.name(),
        }
    }

    fn try_get(&self, path: &[PathElement]) -> (r: Option<ValueCow<'_>>) {
        if path.len() == 0 {
            return None;
        }
        let key = root_name(path);
        match &self.data {
            Value::Object(o) => {
                if o.contains_key(key.as_str()) {
                    return try_find(&self.data, path);
                }
            },
            _ => {},
        }
        None
    }

    fn get(&self, path: &[PathElement]) -> (r: Result<ValueCow<'_>, Error>) {
        if path.len() == 0 {
            return Err(unknown_nil_error());
        }
        let key = root_name(path);
        match &self.data {
            Value::Object(o) => {
                if o.contains_key(key.as_str()) {
                    match try_find(&self.data, path) {
                        Some(v) => {
                            return Ok(ValueCow::Owned(v.into_owned()));
                        },
                        None => {},
                    }
                }
            },
            _ => {},
        }
        Err(unknown_variable_error(key))
    }

    fn set_global(&mut self, name: KString, val: Value) -> (r: Option<Value>) {
        self.parent.set_global(name, val)
    }

    fn set_index(&mut self, name: KString, val: Value) -> (r: Option<Value>) {
        self.parent.set_index(name, val)
    }

    fn get_index(&self, name: &str) -> (r: Option<Value>) {
        self.parent.get_index(name)
    }

    closed spec fn spec_runtime_registers(&self) -> Registers {
        self.registers
    }

    fn registers(&self) -> (r: &Registers) {
        &self.registers
    }
}

/// The runtime a template renders in: caller globals below the counters
/// below the assigned globals.
pub type DefaultRuntime = GlobalFrame<IndexFrame<StackFrame<RuntimeCore>>>;

/// Creates the runtime of a template render.
#[derive(Debug)]
pub struct RuntimeBuilder {
    globals: Option<Object>,
}

impl RuntimeBuilder {
    /// The caller globals, if set.
    pub closed spec fn spec_globals(&self) -> Option<Seq<(Seq<char>, ValueModel)>> {
        match self.globals {
            Some(o) => Some(o.model()),
            None => None,
        }
    }

    /// A builder with no globals.
    pub fn new() -> (r: Self)
        ensures
            r.spec_globals() is None,
    {
        RuntimeBuilder { globals: None }
    }

    /// Initializes the stack with the given globals.
    pub fn set_globals(self, values: Object) -> (r: Self)
        ensures
            r.spec_globals() == Some(values.model()),
    {
        RuntimeBuilder { globals: Some(values) }
    }

    /// Creates the runtime: assigned globals take precedence over counters,
    /// which take precedence over the caller's globals.
    pub fn build(self) -> (r: DefaultRuntime)
        ensures
            r.spec_data() == Seq::<(Seq<char>, ValueModel)>::empty(),
            r.spec_parent().spec_data() == Seq::<(Seq<char>, ValueModel)>::empty(),
            r.spec_parent().spec_parent().spec_data() == match self.spec_globals() {
                Some(g) => g,
                None => Seq::<(Seq<char>, ValueModel)>::empty(),
            },
            r.spec_parent().spec_parent().wf(),
            r.spec_parent().spec_parent().spec_parent().spec_registers().policy is None,
            r.has_globals(),
            r.has_indexes(),
    {
        let globals = match self.globals {
            Some(g) => g,
            None => Object::new(),
        };
        let runtime = StackFrame::new(RuntimeCore::new(), globals);
        let runtime = IndexFrame::new(runtime);
        let r = GlobalFrame::new(runtime);
        r
    }
}

/// A global binding is what a lookup of its name finds: after
/// `set_global(name, value)` on a global frame, `get` of the one-element
/// path `name` gives `value` back.
pub proof fn law_global_read_after_write<P: Runtime>(frame: GlobalFrame<P>, path: PathModel)
    requires
        frame.has_globals(),
        path.len() == 1,
        frame.spec_global(root_key(path)) is Some,
    ensures
        frame.spec_get(path) == Ok::<ValueModel, ErrorModel>(frame.spec_global(root_key(path))->0),
        frame.spec_try_get(path) == frame.spec_global(root_key(path)),
{
    let es = entries_of(frame.data@);
    let c = lookup(es, root_key(path))->0;
    assert(spec_augmented_get(ValueModel::Object(es), path[0]) == Some(c));
    assert(path.drop_first().len() == 0);
    assert(spec_try_find(c, path.drop_first()) == Some(c));
    assert(spec_try_find(ValueModel::Object(es), path) == Some(c));
}

/// A stack frame masks its parent: a path whose root the frame binds is
/// looked up in the frame's own data, any other path in the parent.
pub proof fn law_frame_masks_parent<P: Runtime>(frame: StackFrame<P>, path: PathModel)
    requires
        path.len() > 0,
    ensures
        frame.spec_try_get(path) == if binds_root(frame.spec_data(), path) {
            spec_try_find(ValueModel::Object(frame.spec_data()), path)
        } else {
            frame.spec_parent().spec_try_get(path)
        },
        frame.spec_get(path) == if binds_root(frame.spec_data(), path) {
            data_get(frame.spec_data(), path)
        } else {
            frame.spec_parent().spec_get(path)
        },
{
}

/// A sandboxed frame hides its parent's variables: only the paths whose root
/// it binds are found, and every other lookup fails.
pub proof fn law_sandbox_hides_parent<P: Runtime>(frame: SandboxedStackFrame<P>, path: PathModel)
    requires
        path.len() > 0,
    ensures
        frame.spec_try_get(path) == if binds_root(frame.spec_data(), path) {
            spec_try_find(ValueModel::Object(frame.spec_data()), path)
        } else {
            None
        },
        !binds_root(frame.spec_data(), path) ==> frame.spec_get(path) == Err::<
            ValueModel,
            ErrorModel,
        >(unknown_variable(root_key(path))),
{
}

/// Until a global is set, a global frame looks everything up in its parent:
/// the same lookups and the same roots.
pub proof fn law_fresh_global_frame_defers<P: Runtime>(frame: GlobalFrame<P>, path: PathModel)
    requires
        frame.spec_data() == Seq::<(Seq<char>, ValueModel)>::empty(),
        path.len() > 0,
    ensures
        frame.spec_try_get(path) == frame.spec_parent().spec_try_get(path),
        frame.spec_get(path) == frame.spec_parent().spec_get(path),
        frame.spec_roots() == frame.spec_parent().spec_roots(),
{
    assert(crate::value::keys_of(frame.spec_data()).to_set() =~= Set::<Seq<char>>::empty());
    assert(frame.spec_roots() =~= frame.spec_parent().spec_roots());
}

} // verus!
