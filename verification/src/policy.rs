//! Render policy: resource accounting, limits and error handling for one
//! render tree.

use crate::error::{Error, ErrorModel, TraceModel};
use crate::kstring::{utf8_len, KString};
use crate::text::{nat_text, push_nat_text, push_str, string_of};
use crate::value::{
    entries_model, lemma_entries_model, lemma_models_of, models_of, scalar_text, ScalarModel,
    Value, ValueModel,
};
use vstd::prelude::*;

verus! {

broadcast use vstd::seq::Seq::lemma_push_map_commute;

/// Production resource cost of assigning a value: the byte length of a
/// scalar's text; one plus the costs of the elements of an array; one plus the
/// key lengths and value costs of an object; one for states and nil.
pub open spec fn prod_cost(v: ValueModel) -> int
    decreases v, 1nat,
{
    match v {
        ValueModel::Scalar(s) => utf8_len(scalar_text(s)) as int,
        ValueModel::Array(a) => 1 + prod_cost_seq(a),
        ValueModel::Object(es) => 1 + prod_cost_entries(es),
        ValueModel::State(_) => 1,
        ValueModel::Nil => 1,
    }
}

/// Sum of the production costs of a sequence of values.
pub open spec fn prod_cost_seq(s: Seq<ValueModel>) -> int
    decreases s, 0nat,
{
    if s.len() == 0 {
        0
    } else {
        prod_cost_seq(s.drop_last()) + prod_cost(s.last())
    }
}

/// Sum of key byte lengths and production costs of object entries.
pub open spec fn prod_cost_entries(s: Seq<(Seq<char>, ValueModel)>) -> int
    decreases s, 0nat,
{
    if s.len() == 0 {
        0
    } else {
        prod_cost_entries(s.drop_last()) + utf8_len(s.last().0) + prod_cost(s.last().1)
    }
}

/// Legacy (Shopify) assign score: like `prod_cost`, except that only string
/// scalars count their length and every other scalar counts one.
pub open spec fn legacy_score(v: ValueModel) -> int
    decreases v, 1nat,
{
    match v {
        ValueModel::Scalar(s) => match s {
            ScalarModel::Str(t) => utf8_len(t) as int,
            _ => 1,
        },
        ValueModel::Array(a) => 1 + legacy_score_seq(a),
        ValueModel::Object(es) => 1 + legacy_score_entries(es),
        ValueModel::State(_) => 1,
        ValueModel::Nil => 1,
    }
}

/// Sum of the legacy scores of a sequence of values.
pub open spec fn legacy_score_seq(s: Seq<ValueModel>) -> int
    decreases s, 0nat,
{
    if s.len() == 0 {
        0
    } else {
        legacy_score_seq(s.drop_last()) + legacy_score(s.last())
    }
}

/// Sum of key byte lengths and legacy scores of object entries.
pub open spec fn legacy_score_entries(s: Seq<(Seq<char>, ValueModel)>) -> int
    decreases s, 0nat,
{
    if s.len() == 0 {
        0
    } else {
        legacy_score_entries(s.drop_last()) + utf8_len(s.last().0) + legacy_score(s.last().1)
    }
}

proof fn lemma_prod_nonneg_seq(s: Seq<ValueModel>, i: int)
    requires
        0 <= i <= s.len(),
    ensures
        0 <= prod_cost_seq(s.take(i)) <= prod_cost_seq(s),
        forall|j: int| 0 <= j < s.len() ==> prod_cost(#[trigger] s[j]) <= prod_cost_seq(s),
    decreases s, 0nat,
{
    if s.len() > 0 {
        lemma_prod_nonneg(s.last());
        if i == s.len() {
            assert(s.take(i) =~= s);
            lemma_prod_nonneg_seq(s.drop_last(), i - 1);
        } else {
            assert(s.drop_last().take(i) =~= s.take(i));
            lemma_prod_nonneg_seq(s.drop_last(), i);
        }
        assert forall|j: int| 0 <= j < s.len() implies prod_cost(#[trigger] s[j]) <= prod_cost_seq(s) by {
            if j < s.len() - 1 {
                assert(s.drop_last()[j] == s[j]);
            }
        }
    } else {
        assert(s.take(i) =~= s);
    }
}

proof fn lemma_prod_nonneg_entries(s: Seq<(Seq<char>, ValueModel)>, i: int)
    requires
        0 <= i <= s.len(),
    ensures
        0 <= prod_cost_entries(s.take(i)) <= prod_cost_entries(s),
        forall|j: int| 0 <= j < s.len() ==> utf8_len((#[trigger] s[j]).0) + prod_cost(s[j].1) <= prod_cost_entries(s),
    decreases s, 0nat,
{
    if s.len() > 0 {
        lemma_prod_nonneg(s.last().1);
        if i == s.len() {
            assert(s.take(i) =~= s);
            lemma_prod_nonneg_entries(s.drop_last(), i - 1);
        } else {
            assert(s.drop_last().take(i) =~= s.take(i));
            lemma_prod_nonneg_entries(s.drop_last(), i);
        }
        assert forall|j: int| 0 <= j < s.len() implies utf8_len((#[trigger] s[j]).0) + prod_cost(s[j].1) <= prod_cost_entries(s) by {
            if j < s.len() - 1 {
                assert(s.drop_last()[j] == s[j]);
            }
        }
    } else {
        assert(s.take(i) =~= s);
    }
}

proof fn lemma_prod_nonneg(v: ValueModel)
    ensures
        prod_cost(v) >= 0,
    decreases v, 1nat,
{
    match v {
        ValueModel::Array(a) => {
            lemma_prod_nonneg_seq(a, 0);
        },
        ValueModel::Object(es) => {
            lemma_prod_nonneg_entries(es, 0);
        },
        _ => {},
    }
}

proof fn lemma_legacy_nonneg_seq(s: Seq<ValueModel>, i: int)
    requires
        0 <= i <= s.len(),
    ensures
        0 <= legacy_score_seq(s.take(i)) <= legacy_score_seq(s),
        forall|j: int| 0 <= j < s.len() ==> legacy_score(#[trigger] s[j]) <= legacy_score_seq(s),
    decreases s, 0nat,
{
    if s.len() > 0 {
        lemma_legacy_nonneg(s.last());
        if i == s.len() {
            assert(s.take(i) =~= s);
            lemma_legacy_nonneg_seq(s.drop_last(), i - 1);
        } else {
            assert(s.drop_last().take(i) =~= s.take(i));
            lemma_legacy_nonneg_seq(s.drop_last(), i);
        }
        assert forall|j: int| 0 <= j < s.len() implies legacy_score(#[trigger] s[j]) <= legacy_score_seq(s) by {
            if j < s.len() - 1 {
                assert(s.drop_last()[j] == s[j]);
            }
        }
    } else {
        assert(s.take(i) =~= s);
    }
}

proof fn lemma_legacy_nonneg_entries(s: Seq<(Seq<char>, ValueModel)>, i: int)
    requires
        0 <= i <= s.len(),
    ensures
        0 <= legacy_score_entries(s.take(i)) <= legacy_score_entries(s),
        forall|j: int| 0 <= j < s.len() ==> utf8_len((#[trigger] s[j]).0) + legacy_score(s[j].1) <= legacy_score_entries(s),
    decreases s, 0nat,
{
    if s.len() > 0 {
        lemma_legacy_nonneg(s.last().1);
        if i == s.len() {
            assert(s.take(i) =~= s);
            lemma_legacy_nonneg_entries(s.drop_last(), i - 1);
        } else {
            assert(s.drop_last().take(i) =~= s.take(i));
            lemma_legacy_nonneg_entries(s.drop_last(), i);
        }
        assert forall|j: int| 0 <= j < s.len() implies utf8_len((#[trigger] s[j]).0) + legacy_score(s[j].1) <= legacy_score_entries(s) by {
            if j < s.len() - 1 {
                assert(s.drop_last()[j] == s[j]);
            }
        }
    } else {
        assert(s.take(i) =~= s);
    }
}

proof fn lemma_legacy_nonneg(v: ValueModel)
    ensures
        legacy_score(v) >= 0,
    decreases v, 1nat,
{
    match v {
        ValueModel::Array(a) => {
            lemma_legacy_nonneg_seq(a, 0);
        },
        ValueModel::Object(es) => {
            lemma_legacy_nonneg_entries(es, 0);
        },
        _ => {},
    }
}

/// Production assign cost of a value (see `prod_cost`).
pub fn prod_assign_resource_cost(value: &Value) -> (r: usize)
    requires
        prod_cost(value@) <= usize::MAX,
    ensures
        r == prod_cost(value@),
    decreases value,
{
    match value {
        Value::Scalar(s) => s.to_kstr().as_str().as_bytes().len(),
        Value::Array(values) => {
            let ghost a = models_of(values@);
            proof {
                lemma_models_of(values@);
                lemma_prod_nonneg_seq(a, 0);
            }
            let mut total: usize = 0;
            let mut i: usize = 0;
            while i < values.len()
                invariant
                    i <= values@.len(),
                    a == models_of(values@),
                    a.len() == values@.len(),
                    forall|j: int| 0 <= j < a.len() ==> #[trigger] a[j] == values@[j]@,
                    total == prod_cost_seq(a.take(i as int)),
                    1 + prod_cost_seq(a) <= usize::MAX,
                    *value == Value::Array(*values),
                decreases values@.len() - i,
            {
                proof {
                    broadcast use vstd::std_specs::vec::axiom_vec_decreases_to_view;
                    assert(decreases_to!(*value => (*value)->Array_0));
                    assert(decreases_to!(values@ => values@[i as int]));
                    lemma_prod_nonneg_seq(a, i + 1);
                    assert(a.take(i + 1).drop_last() =~= a.take(i as int));
                    assert(a.take(i + 1).last() == a[i as int]);
                }
                let c = prod_assign_resource_cost(&values[i]);
                total = total + c;
                i = i + 1;
            }
            assert(a.take(values@.len() as int) =~= a);
            1 + total
        },
        Value::Object(obj) => {
            let ghost es = obj.model();
            proof {
                obj.lemma_model();
                lemma_entries_model(obj.entries@);
                lemma_prod_nonneg_entries(es, 0);
            }
            let mut total: usize = 0;
            let mut i: usize = 0;
            while i < obj.entries.len()
                invariant
                    i <= obj.entries@.len(),
                    es == entries_model(obj.entries@),
                    es.len() == obj.entries@.len(),
                    forall|j: int| 0 <= j < es.len() ==> #[trigger] es[j] == (obj.entries@[j].0@, obj.entries@[j].1@),
                    total == prod_cost_entries(es.take(i as int)),
                    1 + prod_cost_entries(es) <= usize::MAX,
                    *value == Value::Object(*obj),
                decreases obj.entries@.len() - i,
            {
                proof {
                    broadcast use vstd::std_specs::vec::axiom_vec_decreases_to_view;
                    assert(decreases_to!(*value => (*value)->Object_0));
                    assert(decreases_to!(*obj => obj.entries));
                    assert(decreases_to!(obj.entries => obj.entries@));
                    assert(decreases_to!(obj.entries@ => obj.entries@[i as int]));
                    assert(decreases_to!(obj.entries@[i as int] => obj.entries@[i as int].1));
                    lemma_prod_nonneg_entries(es, i + 1);
                    assert(es.take(i + 1).drop_last() =~= es.take(i as int));
                    assert(es.take(i + 1).last() == es[i as int]);
                }
                let klen = obj.entries[i].0.as_str().as_bytes().len();
                let c = prod_assign_resource_cost(&obj.entries[i].1);
                total = total + klen + c;
                i = i + 1;
            }
            assert(es.take(obj.entries@.len() as int) =~= es);
            1 + total
        },
        Value::State(_) => 1,
        Value::Nil => 1,
    }
}

/// Legacy assign score of a value (see `legacy_score`).
pub fn legacy_assign_score(value: &Value) -> (r: usize)
    requires
        legacy_score(value@) <= usize::MAX,
    ensures
        r == legacy_score(value@),
    decreases value,
{
    match value {
        Value::Scalar(s) => {
            if s.is_string() {
                s.to_kstr().as_str().as_bytes().len()
            } else {
                1
            }
        },
        Value::Array(values) => {
            let ghost a = models_of(values@);
            proof {
                lemma_models_of(values@);
                lemma_legacy_nonneg_seq(a, 0);
            }
            let mut total: usize = 0;
            let mut i: usize = 0;
            while i < values.len()
                invariant
                    i <= values@.len(),
                    a == models_of(values@),
                    a.len() == values@.len(),
                    forall|j: int| 0 <= j < a.len() ==> #[trigger] a[j] == values@[j]@,
                    total == legacy_score_seq(a.take(i as int)),
                    1 + legacy_score_seq(a) <= usize::MAX,
                    *value == Value::Array(*values),
                decreases values@.len() - i,
            {
                proof {
                    broadcast use vstd::std_specs::vec::axiom_vec_decreases_to_view;
                    assert(decreases_to!(*value => (*value)->Array_0));
                    assert(decreases_to!(values@ => values@[i as int]));
                    lemma_legacy_nonneg_seq(a, i + 1);
                    assert(a.take(i + 1).drop_last() =~= a.take(i as int));
                    assert(a.take(i + 1).last() == a[i as int]);
                }
                let c = legacy_assign_score(&values[i]);
                total = total + c;
                i = i + 1;
            }
            assert(a.take(values@.len() as int) =~= a);
            1 + total
        },
        Value::Object(obj) => {
            let ghost es = obj.model();
            proof {
                obj.lemma_model();
                lemma_entries_model(obj.entries@);
                lemma_legacy_nonneg_entries(es, 0);
            }
            let mut total: usize = 0;
            let mut i: usize = 0;
            while i < obj.entries.len()
                invariant
                    i <= obj.entries@.len(),
                    es == entries_model(obj.entries@),
                    es.len() == obj.entries@.len(),
                    forall|j: int| 0 <= j < es.len() ==> #[trigger] es[j] == (obj.entries@[j].0@, obj.entries@[j].1@),
                    total == legacy_score_entries(es.take(i as int)),
                    1 + legacy_score_entries(es) <= usize::MAX,
                    *value == Value::Object(*obj),
                decreases obj.entries@.len() - i,
            {
                proof {
                    broadcast use vstd::std_specs::vec::axiom_vec_decreases_to_view;
                    assert(decreases_to!(*value => (*value)->Object_0));
                    assert(decreases_to!(*obj => obj.entries));
                    assert(decreases_to!(obj.entries => obj.entries@));
                    assert(decreases_to!(obj.entries@ => obj.entries@[i as int]));
                    assert(decreases_to!(obj.entries@[i as int] => obj.entries@[i as int].1));
                    lemma_legacy_nonneg_entries(es, i + 1);
                    assert(es.take(i + 1).drop_last() =~= es.take(i as int));
                    assert(es.take(i + 1).last() == es[i as int]);
                }
                let klen = obj.entries[i].0.as_str().as_bytes().len();
                let c = legacy_assign_score(&obj.entries[i].1);
                total = total + klen + c;
                i = i + 1;
            }
            assert(es.take(obj.entries@.len() as int) =~= es);
            1 + total
        },
        Value::State(_) => 1,
        Value::Nil => 1,
    }
}

/// `" limit exceeded"`
pub open spec fn limit_exceeded_suffix() -> Seq<char> {
    seq![' ', 'l', 'i', 'm', 'i', 't', ' ', 'e', 'x', 'c', 'e', 'e', 'd', 'e', 'd']
}

/// The error for a limit of kind `kind` that `actual` exceeded.
pub open spec fn limit_error(kind: Seq<char>, limit: nat, actual: nat) -> ErrorModel {
    ErrorModel {
        msg: kind + limit_exceeded_suffix(),
        backtrace: seq![
            TraceModel {
                trace: None,
                context: seq![
                    (seq!['l', 'i', 'm', 'i', 't'], nat_text(limit)),
                    (seq!['a', 'c', 't', 'u', 'a', 'l'], nat_text(actual)),
                ],
            },
        ],
    }
}

fn nat_string(n: usize) -> (r: String)
    ensures
        r@ == nat_text(n as nat),
{
    let mut v: Vec<char> = Vec::new();
    push_nat_text(&mut v, n as u64);
    assert(v@ =~= nat_text(n as nat));
    string_of(v.as_slice())
}

/// Fails when a limit is set and `actual` is above it.
pub fn enforce_limit(kind: &str, limit: Option<usize>, actual: usize) -> (r: Result<(), Error>)
    ensures
        match r {
            Ok(()) => limit is None || actual <= limit->0,
            Err(e) => limit is Some && actual > limit->0 && e@ == limit_error(
                kind@,
                limit->0 as nat,
                actual as nat,
            ),
        },
{
    if let Some(limit) = limit {
        if actual > limit {
            let mut msg: Vec<char> = Vec::new();
            push_str(&mut msg, kind);
            let suffix: &'static str = " limit exceeded";
            proof {
                reveal_strlit(" limit exceeded");
                reveal_strlit("limit");
                reveal_strlit("actual");
            }
            assert(suffix@ =~= limit_exceeded_suffix());
            push_str(&mut msg, suffix);
            let k1: &'static str = "limit";
            let k2: &'static str = "actual";
            assert(k1@ =~= seq!['l', 'i', 'm', 'i', 't']);
            assert(k2@ =~= seq!['a', 'c', 't', 'u', 'a', 'l']);
            let e = Error::with_msg_string(KString::from_string(string_of(msg.as_slice())))
                .context(KString::from_static(k1), KString::from_string(nat_string(limit)))
                .context(KString::from_static(k2), KString::from_string(nat_string(actual)));
            assert(e@.backtrace[0].context =~= limit_error(kind@, limit as nat, actual as nat).backtrace[0].context);
            assert(e@.backtrace =~= limit_error(kind@, limit as nat, actual as nat).backtrace);
            return Err(e);
        }
    }
    Ok(())
}

/// Marker for the render policies of this library.
pub trait Sealed {}

/// How runtime render errors are surfaced.
#[derive(Clone, Copy, Debug, PartialEq, Eq, Structural)]
pub enum ProdErrorMode {
    /// Abort on the first render error.
    Strict,
    /// Render the error inline (with its displayed text) and collect it.
    Lenient,
}

impl ProdErrorMode {
    /// The default mode is lenient.
    pub fn default_mode() -> (r: Self)
        ensures
            r == ProdErrorMode::Lenient,
    {
        ProdErrorMode::Lenient
    }
}

/// Production render policy configuration.
#[derive(Clone, Copy, Debug)]
pub struct ProdPolicyConfig {
    /// Optional maximum render-op count across the full render tree.
    pub max_render_ops: Option<usize>,
    /// Optional maximum assign-byte count across the full render tree.
    pub max_assign_bytes: Option<usize>,
    /// Optional maximum nested partial/render depth.
    pub max_depth: Option<usize>,
    /// Whether missing variables should raise instead of resolving to nil.
    pub strict_variables: bool,
    /// Whether missing filters should raise instead of passing input through.
    pub strict_filters: bool,
    /// How runtime render errors should be surfaced.
    pub error_mode: ProdErrorMode,
}

impl ProdPolicyConfig {
    /// No limits, lenient lookups and filters, lenient errors.
    pub fn default_config() -> (r: Self)
        ensures
            r.max_render_ops is None,
            r.max_assign_bytes is None,
            r.max_depth is None,
            !r.strict_variables,
            !r.strict_filters,
            r.error_mode == ProdErrorMode::Lenient,
    {
        ProdPolicyConfig {
            max_render_ops: None,
            max_assign_bytes: None,
            max_depth: None,
            strict_variables: false,
            strict_filters: false,
            error_mode: ProdErrorMode::Lenient,
        }
    }
}

/// Production render policy: configuration plus the counters of one render
/// tree.
#[derive(Debug)]
pub struct ProdPolicy {
    config: ProdPolicyConfig,
    render_ops: usize,
    assign_bytes: usize,
    depth: usize,
    errors: Vec<Error>,
}

impl Sealed for ProdPolicy {}

impl ProdPolicy {
    /// The configuration.
    pub closed spec fn config(&self) -> ProdPolicyConfig {
        self.config
    }

    /// Render ops counted so far.
    pub closed spec fn spec_render_ops(&self) -> nat {
        self.render_ops as nat
    }

    /// Assign bytes counted so far.
    pub closed spec fn spec_assign_bytes(&self) -> nat {
        self.assign_bytes as nat
    }

    /// Current partial/render nesting depth.
    pub closed spec fn spec_depth(&self) -> nat {
        self.depth as nat
    }

    /// Errors collected in lenient mode, oldest first.
    pub closed spec fn spec_errors(&self) -> Seq<ErrorModel> {
        self.errors@.map_values(|e: Error| e@)
    }

    /// A fresh policy: all counters zero, no errors.
    pub fn new(config: ProdPolicyConfig) -> (r: Self)
        ensures
            r.config() == config,
            r.spec_render_ops() == 0,
            r.spec_assign_bytes() == 0,
            r.spec_depth() == 0,
            r.spec_errors() == Seq::<ErrorModel>::empty(),
    {
        let r = ProdPolicy { config, render_ops: 0, assign_bytes: 0, depth: 0, errors: Vec::new() };
        assert(r.spec_errors() =~= Seq::<ErrorModel>::empty());
        r
    }

    /// Handles a render error: strict mode returns it, lenient mode records a
    /// copy and returns its displayed text as replacement output.
    pub fn handle_render_error(&mut self, error: Error) -> (r: Result<Option<String>, Error>)
        ensures
            final(self).config() == old(self).config(),
            final(self).spec_render_ops() == old(self).spec_render_ops(),
            final(self).spec_assign_bytes() == old(self).spec_assign_bytes(),
            final(self).spec_depth() == old(self).spec_depth(),
            match old(self).config().error_mode {
                ProdErrorMode::Strict => r matches Err(e) && e@ == error@ && final(self).spec_errors()
                    == old(self).spec_errors(),
                ProdErrorMode::Lenient => r matches Ok(Some(s)) && s@ == crate::error::error_text(
                    error@,
                ) && final(self).spec_errors() == old(self).spec_errors().push(error@),
            },
    {
        match self.config.error_mode {
            ProdErrorMode::Strict => Err(error),
            ProdErrorMode::Lenient => {
                let text = error.to_string();
                let ghost em = error@;
                self.errors.push(error);
                assert(self.spec_errors() =~= old(self).spec_errors().push(em));
                Ok(Some(text))
            },
        }
    }

    /// Counts render ops, then fails if the render-op limit is exceeded.
    pub fn increment_render_ops(&mut self, amount: usize) -> (r: Result<(), Error>)
        requires
            old(self).spec_render_ops() + amount <= usize::MAX,
        ensures
            final(self).spec_render_ops() == old(self).spec_render_ops() + amount,
            final(self).config() == old(self).config(),
            final(self).spec_assign_bytes() == old(self).spec_assign_bytes(),
            final(self).spec_depth() == old(self).spec_depth(),
            final(self).spec_errors() == old(self).spec_errors(),
            match r {
                Ok(()) => old(self).config().max_render_ops is None || final(self).spec_render_ops()
                    <= old(self).config().max_render_ops->0,
                Err(e) => old(self).config().max_render_ops is Some && final(self).spec_render_ops()
                    > old(self).config().max_render_ops->0 && e@ == limit_error(
                    seq!['R', 'e', 'n', 'd', 'e', 'r'],
                    old(self).config().max_render_ops->0 as nat,
                    final(self).spec_render_ops(),
                ),
            },
    {
        self.render_ops = self.render_ops + amount;
        let kind: &'static str = "Render";
        proof {
            reveal_strlit("Render");
        }
        assert(kind@ =~= seq!['R', 'e', 'n', 'd', 'e', 'r']);
        enforce_limit(kind, self.config.max_render_ops, self.render_ops)
    }

    /// Counts assign bytes, then fails if the assign-byte limit is exceeded.
    pub fn increment_assign_bytes(&mut self, amount: usize) -> (r: Result<(), Error>)
        requires
            old(self).spec_assign_bytes() + amount <= usize::MAX,
        ensures
            final(self).spec_assign_bytes() == old(self).spec_assign_bytes() + amount,
            final(self).config() == old(self).config(),
            final(self).spec_render_ops() == old(self).spec_render_ops(),
            final(self).spec_depth() == old(self).spec_depth(),
            final(self).spec_errors() == old(self).spec_errors(),
            match r {
                Ok(()) => old(self).config().max_assign_bytes is None || final(self).spec_assign_bytes()
                    <= old(self).config().max_assign_bytes->0,
                Err(e) => old(self).config().max_assign_bytes is Some && final(self).spec_assign_bytes()
                    > old(self).config().max_assign_bytes->0 && e@ == limit_error(
                    seq!['A', 's', 's', 'i', 'g', 'n'],
                    old(self).config().max_assign_bytes->0 as nat,
                    final(self).spec_assign_bytes(),
                ),
            },
    {
        self.assign_bytes = self.assign_bytes + amount;
        let kind: &'static str = "Assign";
        proof {
            reveal_strlit("Assign");
        }
        assert(kind@ =~= seq!['A', 's', 's', 'i', 'g', 'n']);
        enforce_limit(kind, self.config.max_assign_bytes, self.assign_bytes)
    }

    /// The production assign cost of a value.
    pub fn assign_resource_cost(&self, value: &Value) -> (r: usize)
        requires
            prod_cost(value@) <= usize::MAX,
        ensures
            r == prod_cost(value@),
    {
        prod_assign_resource_cost(value)
    }

    /// Whether missing variables raise.
    pub fn strict_variables(&self) -> (r: bool)
        ensures
            r == self.config().strict_variables,
    {
        self.config.strict_variables
    }

    /// Whether unknown filters raise.
    pub fn strict_filters(&self) -> (r: bool)
        ensures
            r == self.config().strict_filters,
    {
        self.config.strict_filters
    }

    /// Enters a nested partial/render boundary, unless that would exceed the
    /// depth limit.
    pub fn enter_scope(&mut self) -> (r: Result<(), Error>)
        requires
            old(self).spec_depth() < usize::MAX,
        ensures
            final(self).config() == old(self).config(),
            final(self).spec_render_ops() == old(self).spec_render_ops(),
            final(self).spec_assign_bytes() == old(self).spec_assign_bytes(),
            final(self).spec_errors() == old(self).spec_errors(),
            match r {
                Ok(()) => final(self).spec_depth() == depth_after_enter(old(self).spec_depth()) && (old(
                    self,
                ).config().max_depth is None || old(self).spec_depth() + 1 <= old(
                    self,
                ).config().max_depth->0),
                Err(e) => final(self).spec_depth() == old(self).spec_depth() && old(
                    self,
                ).config().max_depth is Some && old(self).spec_depth() + 1 > old(
                    self,
                ).config().max_depth->0 && e@ == limit_error(
                    seq!['D', 'e', 'p', 't', 'h'],
                    old(self).config().max_depth->0 as nat,
                    old(self).spec_depth() + 1,
                ),
            },
    {
        let next_depth = self.depth + 1;
        let kind: &'static str = "Depth";
        proof {
            reveal_strlit("Depth");
        }
        assert(kind@ =~= seq!['D', 'e', 'p', 't', 'h']);
        enforce_limit(kind, self.config.max_depth, next_depth)?;
        self.depth = next_depth;
        Ok(())
    }

    /// Leaves a nested partial/render boundary.
    pub fn leave_scope(&mut self)
        ensures
            final(self).spec_depth() == depth_after_leave(old(self).spec_depth()),
            final(self).config() == old(self).config(),
            final(self).spec_render_ops() == old(self).spec_render_ops(),
            final(self).spec_assign_bytes() == old(self).spec_assign_bytes(),
            final(self).spec_errors() == old(self).spec_errors(),
    {
        self.depth = self.depth.saturating_sub(1);
    }

    /// Drains the collected errors.
    pub fn take_errors(&mut self) -> (r: Vec<Error>)
        ensures
            r@.map_values(|e: Error| e@) == old(self).spec_errors(),
            final(self).spec_errors() == Seq::<ErrorModel>::empty(),
            final(self).config() == old(self).config(),
            final(self).spec_render_ops() == old(self).spec_render_ops(),
            final(self).spec_assign_bytes() == old(self).spec_assign_bytes(),
            final(self).spec_depth() == old(self).spec_depth(),
    {
        let mut taken: Vec<Error> = Vec::new();
        std::mem::swap(&mut taken, &mut self.errors);
        assert(self.spec_errors() =~= Seq::<ErrorModel>::empty());
        taken
    }
}

/// Conformance render policy (for a host that mirrors Ruby Liquid): the
/// strictness flags and the depth of nested partial/render scopes, capped at
/// a hundred.
#[derive(Debug)]
pub struct RubyConformancePolicy {
    strict_variables: bool,
    strict_filters: bool,
    depth: usize,
}

impl Sealed for RubyConformancePolicy {}

/// `"stack level too deep"`
pub open spec fn too_deep_msg() -> Seq<char> {
    "stack level too deep"@
}

impl RubyConformancePolicy {
    /// The deepest nesting of partial/render scopes.
    pub open spec fn max_depth() -> nat {
        100
    }

    /// The current nesting depth.
    pub closed spec fn spec_depth(&self) -> nat {
        self.depth as nat
    }

    /// Whether unknown variables are errors.
    pub closed spec fn spec_strict_variables(&self) -> bool {
        self.strict_variables
    }

    /// Whether unknown filters are errors.
    pub closed spec fn spec_strict_filters(&self) -> bool {
        self.strict_filters
    }

    /// A policy with the given strictness, at depth zero.
    pub fn shared(strict_variables: bool, strict_filters: bool) -> (r: Self)
        ensures
            r.spec_depth() == 0,
            r.spec_strict_variables() == strict_variables,
            r.spec_strict_filters() == strict_filters,
    {
        RubyConformancePolicy { strict_variables, strict_filters, depth: 0 }
    }

    /// Whether unknown variables are errors.
    pub fn strict_variables(&self) -> (r: bool)
        ensures
            r == self.spec_strict_variables(),
    {
        self.strict_variables
    }

    /// Whether unknown filters are errors.
    pub fn strict_filters(&self) -> (r: bool)
        ensures
            r == self.spec_strict_filters(),
    {
        self.strict_filters
    }

    /// The legacy assign score of a value (see `legacy_score`).
    pub fn assign_resource_cost(&self, value: &Value) -> (r: usize)
        requires
            legacy_score(value@) <= usize::MAX,
        ensures
            r == legacy_score(value@),
    {
        legacy_assign_score(value)
    }

    /// Enters a nested scope; beyond the maximum depth it fails with
    /// `stack level too deep`.
    pub fn enter_scope(&mut self) -> (r: Result<(), Error>)
        ensures
            final(self).spec_strict_variables() == old(self).spec_strict_variables(),
            final(self).spec_strict_filters() == old(self).spec_strict_filters(),
            match r {
                Ok(()) => old(self).spec_depth() + 1 <= Self::max_depth() && final(self).spec_depth()
                    == depth_after_enter(old(self).spec_depth()),
                Err(e) => old(self).spec_depth() + 1 > Self::max_depth() && final(self).spec_depth()
                    == old(self).spec_depth() && e@.msg == too_deep_msg(),
            },
    {
        if self.depth >= 100 {
            return Err(Error::with_msg("stack level too deep"));
        }
        self.depth = self.depth + 1;
        Ok(())
    }

    /// Leaves a nested scope.
    pub fn leave_scope(&mut self)
        ensures
            final(self).spec_depth() == depth_after_leave(old(self).spec_depth()),
            final(self).spec_strict_variables() == old(self).spec_strict_variables(),
            final(self).spec_strict_filters() == old(self).spec_strict_filters(),
    {
        self.depth = self.depth.saturating_sub(1);
    }
}

/// Where a filter call is evaluated.
#[derive(Debug, Clone, Copy, PartialEq, Eq)]
pub enum FilterDispatch {
    /// By the host's fallback registry.
    Fallback,
    /// By the parsed filter registry (which reports a filter it lacks).
    Registry,
    /// Nowhere: the input passes through unchanged.
    PassInput,
}

/// Where a filter call is evaluated: the host's fallback registry first,
/// then the parsed registry; a filter neither knows passes its input through
/// when the active policy does not make filters strict, and is reported by
/// the registry otherwise (also when there is no policy).
pub fn filter_dispatch(in_fallback: bool, in_registry: bool, strict_filters: Option<bool>) -> (r:
    FilterDispatch)
    ensures
        in_fallback ==> r == FilterDispatch::Fallback,
        !in_fallback && in_registry ==> r == FilterDispatch::Registry,
        !in_fallback && !in_registry ==> r == if strict_filters == Some(false) {
            FilterDispatch::PassInput
        } else {
            FilterDispatch::Registry
        },
{
    if in_fallback {
        return FilterDispatch::Fallback;
    }
    if in_registry {
        return FilterDispatch::Registry;
    }
    match strict_filters {
        Some(false) => FilterDispatch::PassInput,
        _ => FilterDispatch::Registry,
    }
}

/// The scope depth after a successful enter.
pub open spec fn depth_after_enter(depth: nat) -> nat {
    depth + 1
}

/// The scope depth after a leave; it never drops below zero.
pub open spec fn depth_after_leave(depth: nat) -> nat {
    if depth > 0 {
        (depth - 1) as nat
    } else {
        0
    }
}

/// Leaving after a successful enter restores the depth.
pub proof fn law_enter_leave_restores_depth(depth: nat)
    ensures
        depth_after_leave(depth_after_enter(depth)) == depth,
{
}

/// The bytes written since the last report: the growth of the total over
/// the baseline, none when the total is below it.
pub open spec fn unreported(total: nat, baseline: nat) -> nat {
    if total >= baseline {
        (total - baseline) as nat
    } else {
        0
    }
}

/// A report takes exactly the bytes added since the previous one, and a
/// second report at the same total takes nothing.
pub proof fn law_reports_take_each_byte_once(baseline: nat, added: nat)
    ensures
        unreported(baseline + added, baseline) == added,
        unreported(baseline + added, baseline + added) == 0,
{
}

/// Tracks the number of bytes written to the active rendered output buffer.
#[derive(Debug)]
pub struct RenderedBytesRegister {
    bytes: usize,
    last_reported_bytes: usize,
}

impl RenderedBytesRegister {
    /// Total bytes written.
    pub closed spec fn spec_bytes(&self) -> nat {
        self.bytes as nat
    }

    /// The total at the last report.
    pub closed spec fn spec_baseline(&self) -> nat {
        self.last_reported_bytes as nat
    }

    /// A register with nothing written.
    pub fn new() -> (r: Self)
        ensures
            r.spec_bytes() == 0,
            r.spec_baseline() == 0,
    {
        RenderedBytesRegister { bytes: 0, last_reported_bytes: 0 }
    }

    /// Add newly written bytes to the running total.
    pub fn add(&mut self, amount: usize)
        requires
            old(self).spec_bytes() + amount <= usize::MAX,
        ensures
            final(self).spec_bytes() == old(self).spec_bytes() + amount,
            final(self).spec_baseline() == old(self).spec_baseline(),
    {
        self.bytes = self.bytes + amount;
    }

    /// Return the total number of bytes written so far.
    pub fn bytes(&self) -> (r: usize)
        ensures
            r == self.spec_bytes(),
    {
        self.bytes
    }

    /// Bytes written since the last report, and `current_total` becomes the
    /// new baseline.
    pub fn take_unreported_bytes(&mut self, current_total: usize) -> (r: usize)
        ensures
            r == unreported(current_total as nat, old(self).spec_baseline()),
            final(self).spec_baseline() == current_total,
            final(self).spec_bytes() == old(self).spec_bytes(),
    {
        let delta = current_total.saturating_sub(self.last_reported_bytes);
        self.last_reported_bytes = current_total;
        delta
    }

    /// Clear the per-scope reporting baseline while preserving the total.
    pub fn clear_reported_baseline(&mut self)
        ensures
            final(self).spec_baseline() == old(self).spec_bytes(),
            final(self).spec_bytes() == old(self).spec_bytes(),
    {
        self.last_reported_bytes = self.bytes;
    }

    /// Clear the running byte count before a fresh render begins.
    pub fn reset(&mut self)
        ensures
            final(self).spec_bytes() == 0,
            final(self).spec_baseline() == 0,
    {
        self.bytes = 0;
        self.last_reported_bytes = 0;
    }
}

impl Default for RenderedBytesRegister {
    /// A register with nothing written.
    fn default() -> (r: Self)
        ensures
            r.spec_bytes() == 0,
            r.spec_baseline() == 0,
    {
        RenderedBytesRegister::new()
    }
}

/// Block processing interrupt state.
#[derive(Debug, Clone, Copy, PartialEq, Eq, Structural)]
pub enum Interrupt {
    /// Restart processing the current block.
    Continue,
    /// Stop processing the current block.
    Break,
}

/// The current interrupt state, used by `break` and `continue`.
#[derive(Debug)]
pub struct InterruptRegister {
    interrupt: Option<Interrupt>,
}

impl Default for InterruptRegister {
    /// No pending interrupt.
    fn default() -> (r: Self)
        ensures
            r.spec_interrupt() is None,
    {
        InterruptRegister::new()
    }
}

impl InterruptRegister {
    /// The pending interrupt.
    pub closed spec fn spec_interrupt(&self) -> Option<Interrupt> {
        self.interrupt
    }

    /// No pending interrupt.
    pub fn new() -> (r: Self)
        ensures
            r.spec_interrupt() is None,
    {
        InterruptRegister { interrupt: None }
    }

    /// An interrupt state is active.
    pub fn interrupted(&self) -> (r: bool)
        ensures
            r == (self.spec_interrupt() is Some),
    {
        self.interrupt.is_some()
    }

    /// Sets the interrupt state. Any previous state is obliterated.
    pub fn set(&mut self, interrupt: Interrupt)
        ensures
            final(self).spec_interrupt() == Some(interrupt),
    {
        self.interrupt = Some(interrupt);
    }

    /// Fetches and clears the interrupt state.
    pub fn reset(&mut self) -> (r: Option<Interrupt>)
        ensures
            r == old(self).spec_interrupt(),
            final(self).spec_interrupt() is None,
    {
        let r = self.interrupt;
        self.interrupt = None;
        r
    }
}

/// Parse-time blankness metadata for a renderable node.
#[derive(Clone, Copy, Debug, Eq, PartialEq, Structural)]
pub enum Blankness {
    /// The node may produce visible output and must keep surrounding whitespace.
    NotBlank,
    /// The node is a whitespace-only text node.
    BlankText,
    /// The node renders no visible output but may still have side effects.
    BlankNode,
}

impl Blankness {
    /// Returns `true` when the node is considered blank.
    pub fn is_blank(self) -> (r: bool)
        ensures
            r == (self != Blankness::NotBlank),
    {
        match self {
            Blankness::NotBlank => false,
            _ => true,
        }
    }

    /// Returns `true` when the node is a whitespace-only text node.
    pub fn is_blank_text(self) -> (r: bool)
        ensures
            r == (self == Blankness::BlankText),
    {
        match self {
            Blankness::BlankText => true,
            _ => false,
        }
    }
}

} // verus!
