//! Partial templates: where their sources come from, and the compilers that
//! turn a source repository into a store of compiled partials.

use crate::error::{Error, ErrorModel, TraceModel};
use crate::kstring::KString;
use crate::text::{join, join_strings, strings_model};
use vstd::prelude::*;

verus! {

/// A repository of partial-template sources, implemented by the embedder.
pub trait PartialSource {
    /// The names of all partial templates.
    fn names(&self) -> Vec<&str>;

    /// The source of the partial template `name`, if there is one.
    fn get(&self, name: &str) -> (r: Result<Option<String>, Error>)
        default_ensures
            r matches Ok(None),
    {
        Ok(None)
    }
}

/// A compiler that compiles every partial of its source up front.
#[derive(Debug)]
pub struct EagerCompiler<S: PartialSource> {
    source: S,
}

/// A compiler that compiles a partial when it is first requested.
#[derive(Debug)]
pub struct LazyCompiler<S: PartialSource> {
    source: S,
}

impl<S: PartialSource> EagerCompiler<S> {
    /// The source this compiler reads.
    pub closed spec fn spec_source(&self) -> S {
        self.source
    }

    /// A compiler for `source`.
    pub fn new(source: S) -> (r: Self)
        ensures
            r.spec_source() == source,
    {
        EagerCompiler { source }
    }

    /// A compiler for an empty source.
    pub fn empty() -> (r: Self) where S: Default
        ensures
            call_ensures(S::default, (), r.spec_source()),
    {
        EagerCompiler { source: S::default() }
    }

    /// The source this compiler reads.
    pub fn source(&self) -> (r: &S)
        ensures
            *r == self.spec_source(),
    {
        &self.source
    }
}

impl<S: PartialSource> LazyCompiler<S> {
    /// The source this compiler reads.
    pub closed spec fn spec_source(&self) -> S {
        self.source
    }

    /// A compiler for `source`.
    pub fn new(source: S) -> (r: Self)
        ensures
            r.spec_source() == source,
    {
        LazyCompiler { source }
    }

    /// A compiler for an empty source.
    pub fn empty() -> (r: Self) where S: Default
        ensures
            call_ensures(S::default, (), r.spec_source()),
    {
        LazyCompiler { source: S::default() }
    }

    /// The source this compiler reads.
    pub fn source(&self) -> (r: &S)
        ensures
            *r == self.spec_source(),
    {
        &self.source
    }
}

/// The error for a partial that its source lists but cannot provide.
pub open spec fn unknown_partial_model(name: Seq<char>, available: Seq<Seq<char>>) -> ErrorModel {
    ErrorModel {
        msg: "Unknown partial-template"@,
        backtrace: seq![
            TraceModel {
                trace: None,
                context: seq![
                    ("requested partial"@, name),
                    ("available partials"@, join(available, ", "@)),
                ],
            },
        ],
    }
}

/// The error for a partial that its source lists but cannot provide.
pub fn unknown_partial_error(name: &str, available: &Vec<String>) -> (r: Error)
    ensures
        r@ == unknown_partial_model(name@, strings_model(available@)),
{
    let e = Error::with_msg("Unknown partial-template");
    let e = e.context(KString::from_ref("requested partial"), KString::from_ref(name));
    let listed = join_strings(available, ", ");
    let e = e.context(KString::from_ref("available partials"), KString::from_string(listed));
    let ghost want = unknown_partial_model(name@, strings_model(available@));
    assert(e@.backtrace[0].context =~= want.backtrace[0].context);
    assert(e@.backtrace[0] == want.backtrace[0]);
    assert(e@.backtrace =~= want.backtrace);
    e
}

/// A compiled partial, or the error met compiling it, as a model.
pub open spec fn outcome_model<T>(r: Result<T, Error>) -> Result<T, ErrorModel> {
    match r {
        Ok(t) => Ok(t),
        Err(e) => Err(e@),
    }
}

/// Whether `out` is what an eager compiler stores for the partial `name`
/// given what the source answered for it: an outcome of `parse` on the text,
/// the source's error, or the unknown-partial error where the source had no
/// text.
pub open spec fn partial_outcome<T, F: Fn(&str) -> Result<T, Error>>(
    name: Seq<char>,
    available: Seq<Seq<char>>,
    fetched: Result<Option<String>, Error>,
    parse: F,
    out: Result<T, ErrorModel>,
) -> bool {
    match fetched {
        Ok(Some(text)) => exists|s: &str, o: Result<T, Error>|
            s@ == text@ && #[trigger] parse.ensures((s,), o) && outcome_model(o) == out,
        Ok(None) => out == Err::<T, ErrorModel>(unknown_partial_model(name, available)),
        Err(e) => out == Err::<T, ErrorModel>(e@),
    }
}

/// What an eager compiler stores for the partial `name`, given what the
/// source answered for it: a compile of the text, the source's error, or the
/// unknown-partial error where the source had no text.
pub fn compile_partial<T, F>(
    name: &str,
    available: &Vec<String>,
    fetched: Result<Option<String>, Error>,
    parse: &F,
) -> (r: Result<T, Error>) where F: Fn(&str) -> Result<T, Error>
    requires
        forall|s: &str| #[trigger] parse.requires((s,)),
    ensures
        partial_outcome(name@, strings_model(available@), fetched, *parse, outcome_model(r)),
{
    match fetched {
        Ok(Some(text)) => {
            let s = text.as_str();
            let r = parse(s);
            assert(s@ == text@ && parse.ensures((s,), r) && outcome_model(r) == outcome_model(r));
            r
        },
        Ok(None) => Err(unknown_partial_error(name, available)),
        Err(e) => Err(e),
    }
}

/// The compiled partials of a source, by name.
pub struct EagerStore<T> {
    entries: Vec<(String, Result<T, Error>)>,
}

/// The last position of `name` among `names`.
pub open spec fn last_index(names: Seq<Seq<char>>, name: Seq<char>) -> Option<int>
    decreases names.len(),
{
    if names.len() == 0 {
        None
    } else if names.last() == name {
        Some(names.len() - 1)
    } else {
        last_index(names.drop_last(), name)
    }
}

proof fn lemma_last_index_in_range(names: Seq<Seq<char>>, name: Seq<char>)
    ensures
        last_index(names, name) matches Some(i) ==> 0 <= i < names.len() && names[i] == name,
    decreases names.len(),
{
    if names.len() > 0 && names.last() != name {
        lemma_last_index_in_range(names.drop_last(), name);
    }
}

impl<T> EagerStore<T> {
    /// The names of the stored partials, in the order they were compiled.
    pub closed spec fn spec_names(&self) -> Seq<Seq<char>> {
        self.entries@.map_values(|e: (String, Result<T, Error>)| e.0@)
    }

    /// The outcome stored at position `i`.
    pub closed spec fn spec_outcome(&self, i: int) -> Result<T, ErrorModel> {
        outcome_model(self.entries@[i].1)
    }

    /// The names of the stored partials.
    pub fn names(&self) -> (r: Vec<&str>)
        ensures
            r@.map_values(|s: &str| s@) == self.spec_names(),
    {
        let mut out: Vec<&str> = Vec::new();
        let mut i: usize = 0;
        while i < self.entries.len()
            invariant
                i <= self.entries@.len(),
                out@.map_values(|s: &str| s@) == self.spec_names().take(i as int),
            decreases self.entries@.len() - i,
        {
            let ghost before = out@;
            let s = self.entries[i].0.as_str();
            out.push(s);
            proof {
                assert(out@ == before.push(s));
                assert(s@ == self.spec_names()[i as int]);
                assert(out@.map_values(|s: &str| s@) =~= before.map_values(|s: &str| s@).push(s@));
            }
            i = i + 1;
            assert(out@.map_values(|s: &str| s@) =~= self.spec_names().take(i as int));
        }
        assert(self.spec_names().take(i as int) =~= self.spec_names());
        out
    }

    /// The compiled partial `name`: `None` when the source did not list it,
    /// else what compiling it gave (the last compile of a name listed twice).
    pub fn get(&self, name: &str) -> (r: Result<Option<&T>, Error>)
        ensures
            match last_index(self.spec_names(), name@) {
                None => r matches Ok(None),
                Some(i) => match self.spec_outcome(i) {
                    Ok(t) => r matches Ok(Some(t2)) && *t2 == t,
                    Err(e) => r matches Err(e2) && e2@ == e,
                },
            },
    {
        let ghost names = self.spec_names();
        let mut i: usize = self.entries.len();
        assert(names.take(i as int) =~= names);
        while i > 0
            invariant
                i <= self.entries@.len(),
                names == self.spec_names(),
                last_index(names, name@) == last_index(names.take(i as int), name@),
            decreases i,
        {
            let e = &self.entries[i - 1];
            assert(names.take(i as int).last() == e.0@);
            assert(names.take(i as int).drop_last() =~= names.take(i - 1));
            if crate::text::str_eq(e.0.as_str(), name) {
                return match &e.1 {
                    Ok(t) => Ok(Some(t)),
                    Err(err) => Err(err.duplicate()),
                };
            }
            i = i - 1;
        }
        Ok(None)
    }
}

/// The characters of each string.
pub open spec fn str_views(v: Seq<&str>) -> Seq<Seq<char>> {
    v.map_values(|s: &str| s@)
}

/// Whether `store` is what compiling the partials `listed` of `source` with
/// `parse` gives, where `source.get` answered `fetched[i]` for `listed[i]`:
/// their names in order, each with that answer turned into an outcome (see
/// [`partial_outcome`]).
pub open spec fn compiled_from<S: PartialSource, T, F: Fn(&str) -> Result<T, Error>>(
    store: EagerStore<T>,
    source: S,
    listed: Seq<&str>,
    fetched: Seq<Result<Option<String>, Error>>,
    parse: F,
) -> bool {
    &&& store.spec_names() == str_views(listed)
    &&& fetched.len() == listed.len()
    &&& forall|i: int|
        0 <= i < listed.len() ==> call_ensures(S::get, (&source, listed[i]), #[trigger] fetched[i])
            && partial_outcome(
            listed[i]@,
            store.spec_names(),
            fetched[i],
            parse,
            store.spec_outcome(i),
        )
}

impl<S: PartialSource> EagerCompiler<S> {
    /// Compiles every partial the source lists with `parse`: the store holds
    /// the names `names()` gave, in order, each with what `get` and `parse`
    /// made of it (see [`partial_outcome`]); compiling never fails as a whole.
    pub fn compile<T, F>(self, parse: &F) -> (r: EagerStore<T>) where
        F: Fn(&str) -> Result<T, Error>,

        requires
            forall|s: &str| #[trigger] parse.requires((s,)),
        ensures
            exists|listed: Vec<&str>, fetched: Seq<Result<Option<String>, Error>>|
                #[trigger] call_ensures(S::names, (&self.spec_source(),), listed)
                    && #[trigger] compiled_from(r, self.spec_source(), listed@, fetched, *parse),
    {
        let listed = self.source.names();
        let ghost want = listed@.map_values(|s: &str| s@);
        let mut names: Vec<String> = Vec::new();
        let mut i: usize = 0;
        while i < listed.len()
            invariant
                i <= listed@.len(),
                want == listed@.map_values(|s: &str| s@),
                strings_model(names@) == want.take(i as int),
            decreases listed@.len() - i,
        {
            let ghost before = names@;
            names.push(listed[i].to_string());
            proof {
                assert(strings_model(names@) =~= strings_model(before).push(listed@[i as int]@));
            }
            i = i + 1;
            assert(strings_model(names@) =~= want.take(i as int));
        }
        assert(want.take(i as int) =~= want);
        let mut entries: Vec<(String, Result<T, Error>)> = Vec::new();
        let ghost mut fs: Seq<Result<Option<String>, Error>> = Seq::empty();
        let mut k: usize = 0;
        while k < listed.len()
            invariant
                k <= listed@.len(),
                forall|s: &str| #[trigger] parse.requires((s,)),
                want == listed@.map_values(|s: &str| s@),
                strings_model(names@) == want,
                entries@.len() == k,
                fs.len() == k,
                forall|j: int| 0 <= j < k ==> #[trigger] entries@[j].0@ == listed@[j]@,
                forall|j: int|
                    0 <= j < k ==> call_ensures(S::get, (&self.source, listed@[j]), #[trigger] fs[j])
                        && partial_outcome(listed@[j]@, want, fs[j], *parse, outcome_model(entries@[j].1)),
            decreases listed@.len() - k,
        {
            let name = listed[k];
            let fetched = self.source.get(name);
            let ghost f = fetched;
            let outcome = compile_partial(name, &names, fetched, parse);
            let ghost before = entries@;
            let ghost fs_before = fs;
            entries.push((name.to_string(), outcome));
            proof {
                fs = fs.push(f);
                assert forall|j: int| 0 <= j < k + 1 implies call_ensures(
                    S::get,
                    (&self.source, listed@[j]),
                    #[trigger] fs[j],
                ) && partial_outcome(listed@[j]@, want, fs[j], *parse, outcome_model(entries@[j].1)) by {
                    if j < k {
                        assert(fs[j] == fs_before[j]);
                        assert(entries@[j] == before[j]);
                    }
                }
            }
            k = k + 1;
        }
        let store = EagerStore { entries };
        assert(store.spec_names() =~= want);
        assert(call_ensures(S::names, (&self.spec_source(),), listed));
        assert forall|i: int| 0 <= i < listed@.len() implies store.spec_outcome(i) == outcome_model(
            entries@[i].1,
        ) by {}
        assert(compiled_from(store, self.spec_source(), listed@, fs, *parse));
        store
    }
}

/// A partial template that a lazy store compiled, kept under its name.
pub open spec fn cached_entry<T>(e: (String, Result<T, Error>)) -> (Seq<char>, Result<T, ErrorModel>) {
    (e.0@, outcome_model(e.1))
}

/// Whether `r`, handed out by a store, is the outcome `o`.
pub open spec fn hands_out<T>(r: Result<&T, Error>, o: Result<T, ErrorModel>) -> bool {
    match r {
        Ok(t) => o == Ok::<T, ErrorModel>(*t),
        Err(e) => o == Err::<T, ErrorModel>(e@),
    }
}

/// Whether `r`, handed out by a store that drops errors, is the outcome `o`.
pub open spec fn offers<T>(r: Option<&T>, o: Result<T, ErrorModel>) -> bool {
    match o {
        Ok(t) => r matches Some(x) && *x == t,
        Err(_) => r is None,
    }
}

/// The partials of a source, each compiled when it is first requested and
/// then kept, together with the error its compile met.
pub struct LazyStore<S: PartialSource, T> {
    source: S,
    cache: Vec<(String, Result<T, Error>)>,
}

impl<S: PartialSource> LazyCompiler<S> {
    /// A store that compiles the partials of the source on demand; nothing is
    /// compiled yet, so compiling never fails as a whole.
    pub fn compile<T>(self) -> (r: LazyStore<S, T>)
        ensures
            r.spec_source() == self.spec_source(),
            r.spec_cache() == Seq::<(Seq<char>, Result<T, ErrorModel>)>::empty(),
    {
        let r = LazyStore { source: self.source, cache: Vec::new() };
        assert(r.spec_cache() =~= Seq::<(Seq<char>, Result<T, ErrorModel>)>::empty());
        r
    }
}

impl<S: PartialSource, T> LazyStore<S, T> {
    /// The source the partials are read from.
    pub closed spec fn spec_source(&self) -> S {
        self.source
    }

    /// The compiled partials kept so far, in the order they were compiled.
    pub closed spec fn spec_cache(&self) -> Seq<(Seq<char>, Result<T, ErrorModel>)> {
        self.cache@.map_values(|e: (String, Result<T, Error>)| cached_entry(e))
    }

    /// The names of the compiled partials kept so far.
    pub open spec fn spec_cached_names(&self) -> Seq<Seq<char>> {
        self.spec_cache().map_values(|e: (Seq<char>, Result<T, ErrorModel>)| e.0)
    }

    /// The names the source lists.
    pub fn names(&self) -> (r: Vec<&str>)
        ensures
            call_ensures(S::names, (&self.spec_source(),), r),
    {
        self.source.names()
    }

    /// The position of the kept compile of `name`, if there is one.
    fn find_cached(&self, name: &str) -> (r: Option<usize>)
        ensures
            r is None <==> last_index(self.spec_cached_names(), name@) is None,
            r matches Some(k) ==> last_index(self.spec_cached_names(), name@) == Some(k as int),
    {
        let ghost names = self.spec_cached_names();
        let mut i: usize = self.cache.len();
        assert(names.take(i as int) =~= names);
        while i > 0
            invariant
                i <= self.cache@.len(),
                names == self.spec_cached_names(),
                names.len() == self.cache@.len(),
                last_index(names, name@) == last_index(names.take(i as int), name@),
            decreases i,
        {
            assert(names.take(i as int).last() == self.cache@[i - 1].0@);
            assert(names.take(i as int).drop_last() =~= names.take(i - 1));
            if crate::text::str_eq(self.cache[i - 1].0.as_str(), name) {
                return Some(i - 1);
            }
            i = i - 1;
        }
        None
    }

    /// Whether a compile of `name` is kept.
    pub fn is_cached(&self, name: &str) -> (r: bool)
        ensures
            r == last_index(self.spec_cached_names(), name@) is Some,
    {
        self.find_cached(name).is_some()
    }

    /// The kept compile at position `i`.
    fn cached_at(&self, i: usize) -> (r: Result<&T, Error>)
        requires
            i < self.spec_cache().len(),
        ensures
            hands_out(r, self.spec_cache()[i as int].1),
    {
        match &self.cache[i].1 {
            Ok(t) => Ok(t),
            Err(e) => Err(e.duplicate()),
        }
    }

    /// The compiled partial `name`. A kept compile is handed out again;
    /// otherwise the source is asked: its error is passed on and a partial it
    /// does not have is the unknown-partial error, neither of them kept, and
    /// a text it has is compiled with `parse`, kept, and handed out.
    pub fn get<F>(&mut self, name: &str, parse: &F) -> (r: Result<&T, Error>) where
        F: Fn(&str) -> Result<T, Error>,

        requires
            forall|s: &str| #[trigger] parse.requires((s,)),
        ensures
            final(self).spec_source() == old(self).spec_source(),
            match last_index(old(self).spec_cached_names(), name@) {
                Some(i) => final(self).spec_cache() == old(self).spec_cache() && hands_out(
                    r,
                    old(self).spec_cache()[i].1,
                ),
                None => exists|fetched: Result<Option<String>, Error>|
                    #[trigger] call_ensures(S::get, (&old(self).spec_source(), name), fetched)
                        && match fetched {
                        Ok(Some(_)) => exists|o: Result<T, ErrorModel>|
                            partial_outcome(name@, Seq::empty(), fetched, *parse, o) && hands_out(
                                r,
                                o,
                            ) && #[trigger] final(self).spec_cache() == old(self).spec_cache().push(
                                (name@, o),
                            ),
                        Ok(None) => final(self).spec_cache() == old(self).spec_cache() && exists|
                            listed: Vec<&str>,
                        |
                            #[trigger] call_ensures(S::names, (&old(self).spec_source(),), listed)
                                && hands_out(
                                r,
                                Err(unknown_partial_model(name@, str_views(listed@))),
                            ),
                        Err(e) => final(self).spec_cache() == old(self).spec_cache() && hands_out(
                            r,
                            Err(e@),
                        ),
                    },
            },
    {
        proof {
            lemma_last_index_in_range(self.spec_cached_names(), name@);
        }
        match self.find_cached(name) {
            Some(i) => {
                return self.cached_at(i);
            },
            None => {},
        }
        let fetched = self.source.get(name);
        match fetched {
            Ok(Some(text)) => {
                let o = parse(text.as_str());
                self.cache.push((name.to_string(), o));
                proof {
                    assert(self.spec_cache() =~= old(self).spec_cache().push((name@, outcome_model(o))));
                    assert(partial_outcome(name@, Seq::empty(), Ok(Some(text)), *parse, outcome_model(o)));
                }
                let n = self.cache.len() - 1;
                self.cached_at(n)
            },
            Ok(None) => {
                let listed = self.source.names();
                let mut available: Vec<String> = Vec::new();
                let mut k: usize = 0;
                while k < listed.len()
                    invariant
                        k <= listed@.len(),
                        strings_model(available@) == str_views(listed@).take(k as int),
                    decreases listed@.len() - k,
                {
                    let ghost before = available@;
                    available.push(listed[k].to_string());
                    proof {
                        assert(strings_model(available@) =~= strings_model(before).push(listed@[k as int]@));
                    }
                    k = k + 1;
                    assert(strings_model(available@) =~= str_views(listed@).take(k as int));
                }
                assert(str_views(listed@).take(k as int) =~= str_views(listed@));
                Err(unknown_partial_error(name, &available))
            },
            Err(e) => Err(e),
        }
    }
    /// The kept compile at position `i`, where it succeeded.
    fn cached_ok_at(&self, i: usize) -> (r: Option<&T>)
        requires
            i < self.spec_cache().len(),
        ensures
            offers(r, self.spec_cache()[i as int].1),
    {
        match &self.cache[i].1 {
            Ok(t) => Some(t),
            Err(_) => None,
        }
    }

    /// The compiled partial `name`, where there is one that compiled. A kept
    /// compile is offered again; otherwise the source is asked, and a text it
    /// has is compiled with `parse` and kept. A missing partial, an error of
    /// the source and a failed compile give `None`.
    pub fn try_get<F>(&mut self, name: &str, parse: &F) -> (r: Option<&T>) where
        F: Fn(&str) -> Result<T, Error>,

        requires
            forall|s: &str| #[trigger] parse.requires((s,)),
        ensures
            final(self).spec_source() == old(self).spec_source(),
            match last_index(old(self).spec_cached_names(), name@) {
                Some(i) => final(self).spec_cache() == old(self).spec_cache() && offers(
                    r,
                    old(self).spec_cache()[i].1,
                ),
                None => exists|fetched: Result<Option<String>, Error>|
                    #[trigger] call_ensures(S::get, (&old(self).spec_source(), name), fetched)
                        && match fetched {
                        Ok(Some(_)) => exists|o: Result<T, ErrorModel>|
                            partial_outcome(name@, Seq::empty(), fetched, *parse, o) && offers(
                                r,
                                o,
                            ) && #[trigger] final(self).spec_cache() == old(self).spec_cache().push(
                                (name@, o),
                            ),
                        _ => final(self).spec_cache() == old(self).spec_cache() && r is None,
                    },
            },
    {
        proof {
            lemma_last_index_in_range(self.spec_cached_names(), name@);
        }
        match self.find_cached(name) {
            Some(i) => {
                return self.cached_ok_at(i);
            },
            None => {},
        }
        let fetched = self.source.get(name);
        match fetched {
            Ok(Some(text)) => {
                let o = parse(text.as_str());
                self.cache.push((name.to_string(), o));
                proof {
                    assert(self.spec_cache() =~= old(self).spec_cache().push((name@, outcome_model(o))));
                    assert(partial_outcome(name@, Seq::empty(), Ok(Some(text)), *parse, outcome_model(o)));
                }
                let n = self.cache.len() - 1;
                self.cached_ok_at(n)
            },
            _ => None,
        }
    }
}

} // verus!
