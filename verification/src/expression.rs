//! Un-evaluated values: literals, variable references and ranges, and their
//! evaluation against a runtime.

use crate::error::{Error, ErrorModel, TraceModel};
use crate::find::{Path, PathAccess, PathElement, ValueCow};
use crate::range::{
    functional_parser, invalid_integer_error, range_bound_to_i64, range_text, range_values,
    spec_range_bound, AssignedRangeValue,
};
use crate::render::{source, source_text};
use crate::stack::{PathModel, Runtime};
use crate::value::{Scalar, ScalarModel, Value, ValueModel};
use vstd::prelude::*;

verus! {

/// An un-evaluated value.
#[derive(Debug)]
pub enum Expression {
    /// A variable reference.
    Variable(Variable),
    /// A literal value.
    Literal(Value),
    /// A range `(start..stop)`.
    Range(Box<(Expression, Expression)>),
}

/// The root of a variable reference.
#[derive(Debug)]
pub enum VariableRoot {
    /// A name.
    Identifier(Scalar),
    /// A name computed by an expression.
    Expression(Box<Expression>),
}

/// A reference to a value: a root and index expressions.
#[derive(Debug)]
pub struct Variable {
    variable: VariableRoot,
    indexes: Vec<Expression>,
}


/// The source form of an evaluated value; a range shows as `(start..stop)`.
pub open spec fn cow_source(c: ValueCow) -> Seq<char> {
    match c {
        ValueCow::Shared(r) => seq!['('] + range_text(r.spec_start(), r.spec_stop()) + seq![')'],
        _ => source_text(c@),
    }
}

/// `Expected scalar, found `{src}``
pub open spec fn expected_scalar_msg(src: Seq<char>) -> ErrorModel {
    ErrorModel {
        msg: seq![
            'E', 'x', 'p', 'e', 'c', 't', 'e', 'd', ' ', 's', 'c', 'a', 'l', 'a', 'r', ',', ' ', 'f',
            'o', 'u', 'n', 'd', ' ', '`',
        ] + src + seq!['`'],
        backtrace: seq![TraceModel { trace: None, context: Seq::empty() }],
    }
}

/// The source form of `c`.
fn cow_source_string(c: &ValueCow) -> (r: String)
    ensures
        r@ == cow_source(*c),
{
    match c {
        ValueCow::Shared(r) => r.source(),
        ValueCow::Owned(v) => source(v),
        ValueCow::Borrowed(v) => source(v),
    }
}

/// Builds the "Expected scalar" error for `v`.
fn expected_scalar_error(v: &ValueCow) -> (r: Error)
    ensures
        r@ == expected_scalar_msg(cow_source(*v)),
{
    let mut msg: Vec<char> = Vec::new();
    let head: &'static str = "Expected scalar, found `";
    proof {
        reveal_strlit("Expected scalar, found `");
    }
    crate::text::push_str(&mut msg, head);
    let src = cow_source_string(v);
    crate::text::push_str(&mut msg, src.as_str());
    msg.push('`');
    let text = crate::text::string_of(msg.as_slice());
    let e = Error::with_msg(text.as_str());
    assert(e@.msg =~= expected_scalar_msg(cow_source(*v)).msg);
    assert(e@.backtrace =~= expected_scalar_msg(cow_source(*v)).backtrace);
    e
}

/// Strict evaluation of an expression.
pub open spec fn eval_expr<R: Runtime, F: Fn(&str) -> Option<i64>>(
    e: Expression,
    rt: R,
    pf: F,
) -> Result<ValueModel, ErrorModel>
    decreases e,
{
    match e {
        Expression::Literal(x) => Ok(x@),
        Expression::Variable(v) => match eval_var(v, rt, pf) {
            Ok(p) => rt.spec_get(p),
            Err(err) => Err(err),
        },
        Expression::Range(b) => match eval_range(*b, rt, pf) {
            Ok((start, stop)) => Ok(ValueModel::Array(range_values(start, stop))),
            Err(err) => Err(err),
        },
    }
}

/// Strict evaluation of the bounds of a range.
pub open spec fn eval_range<R: Runtime, F: Fn(&str) -> Option<i64>>(
    b: (Expression, Expression),
    rt: R,
    pf: F,
) -> Result<(i64, i64), ErrorModel>
    decreases b,
{
    match eval_expr(b.0, rt, pf) {
        Err(err) => Err(err),
        Ok(s) => match spec_range_bound(s, pf) {
            Err(err) => Err(err),
            Ok(start) => match eval_expr(b.1, rt, pf) {
                Err(err) => Err(err),
                Ok(t) => match spec_range_bound(t, pf) {
                    Err(err) => Err(err),
                    Ok(stop) => Ok((start, stop)),
                },
            },
        },
    }
}

/// The source form of `v`, the value of `e`: a range shows as
/// `(start..stop)`.
pub open spec fn eval_source<R: Runtime, F: Fn(&str) -> Option<i64>>(
    e: Expression,
    rt: R,
    pf: F,
    v: ValueModel,
) -> Seq<char>
    decreases e,
{
    match e {
        Expression::Range(b) => match eval_range(*b, rt, pf) {
            Ok((start, stop)) => seq!['('] + range_text(start, stop) + seq![')'],
            Err(_) => source_text(v),
        },
        _ => source_text(v),
    }
}

/// Strict evaluation of a variable reference to a path.
pub open spec fn eval_var<R: Runtime, F: Fn(&str) -> Option<i64>>(
    v: Variable,
    rt: R,
    pf: F,
) -> Result<PathModel, ErrorModel>
    decreases v,
{
    let root = match v.spec_root() {
        VariableRoot::Identifier(s) => Ok(s@),
        VariableRoot::Expression(e) => match eval_expr(*e, rt, pf) {
            Ok(ValueModel::Scalar(s)) => Ok(s),
            Ok(other) => Err(expected_scalar_msg(eval_source(*e, rt, pf, other))),
            Err(err) => Err(err),
        },
    };
    match root {
        Err(err) => Err(err),
        Ok(s) => eval_indexes(v.spec_indexes(), rt, pf, seq![(s, PathAccess::Dot)]),
    }
}

/// Strict evaluation of index expressions, appended to `acc`.
pub open spec fn eval_indexes<R: Runtime, F: Fn(&str) -> Option<i64>>(
    s: Seq<Expression>,
    rt: R,
    pf: F,
    acc: PathModel,
) -> Result<PathModel, ErrorModel>
    decreases s,
{
    if s.len() == 0 {
        Ok(acc)
    } else {
        match eval_expr(s[0], rt, pf) {
            Ok(ValueModel::Scalar(x)) => eval_indexes(
                s.subrange(1, s.len() as int),
                rt,
                pf,
                acc.push((x, PathAccess::Dot)),
            ),
            Ok(other) => Err(expected_scalar_msg(eval_source(s[0], rt, pf, other))),
            Err(err) => Err(err),
        }
    }
}

/// Lenient evaluation of an expression.
pub open spec fn try_eval_expr<R: Runtime, F: Fn(&str) -> Option<i64>>(
    e: Expression,
    rt: R,
    pf: F,
) -> Option<ValueModel>
    decreases e,
{
    match e {
        Expression::Literal(x) => Some(x@),
        Expression::Variable(v) => match try_eval_var(v, rt, pf) {
            Some(p) => rt.spec_try_get(p),
            None => None,
        },
        Expression::Range(_) => match eval_expr(e, rt, pf) {
            Ok(x) => Some(x),
            Err(_) => None,
        },
    }
}

/// Lenient evaluation of a variable reference to a path.
pub open spec fn try_eval_var<R: Runtime, F: Fn(&str) -> Option<i64>>(
    v: Variable,
    rt: R,
    pf: F,
) -> Option<PathModel>
    decreases v,
{
    let root = match v.spec_root() {
        VariableRoot::Identifier(s) => Some(s@),
        VariableRoot::Expression(e) => match try_eval_expr(*e, rt, pf) {
            Some(ValueModel::Scalar(s)) => Some(s),
            _ => None,
        },
    };
    match root {
        None => None,
        Some(s) => try_eval_indexes(v.spec_indexes(), rt, pf, seq![(s, PathAccess::Dot)]),
    }
}

/// Lenient evaluation of index expressions, appended to `acc`.
pub open spec fn try_eval_indexes<R: Runtime, F: Fn(&str) -> Option<i64>>(
    s: Seq<Expression>,
    rt: R,
    pf: F,
    acc: PathModel,
) -> Option<PathModel>
    decreases s,
{
    if s.len() == 0 {
        Some(acc)
    } else {
        match try_eval_expr(s[0], rt, pf) {
            Some(ValueModel::Scalar(x)) => try_eval_indexes(
                s.subrange(1, s.len() as int),
                rt,
                pf,
                acc.push((x, PathAccess::Dot)),
            ),
            _ => None,
        }
    }
}

impl Expression {
    /// A literal scalar.
    pub fn with_literal(literal: Scalar) -> (r: Self)
        ensures
            r matches Expression::Literal(v) && v@ == ValueModel::Scalar(literal@),
    {
        Expression::Literal(Value::Scalar(literal))
    }

    /// The literal value, if this is a literal.
    pub fn into_literal(self) -> (r: Option<Value>)
        ensures
            match self {
                Expression::Literal(x) => r == Some(x),
                _ => r is None,
            },
    {
        match self {
            Expression::Literal(x) => Some(x),
            _ => None,
        }
    }

    /// The variable reference, if this is one.
    pub fn into_variable(self) -> (r: Option<Variable>)
        ensures
            match self {
                Expression::Variable(x) => r == Some(x),
                _ => r is None,
            },
    {
        match self {
            Expression::Variable(x) => Some(x),
            _ => None,
        }
    }

    /// Evaluates strictly: a variable that cannot be found is an error.
    pub fn evaluate<'c, R: Runtime, F: Fn(&str) -> Option<i64>>(
        &'c self,
        runtime: &'c R,
        parse_float: &F,
    ) -> (r: Result<ValueCow<'c>, Error>)
        requires
            forall|s: &str| parse_float.requires((s,)),
            functional_parser(*parse_float),
        ensures
            r matches Ok(c) ==> cow_source(c) == eval_source(*self, *runtime, *parse_float, c@),
            match r {
                Ok(v) => eval_expr(*self, *runtime, *parse_float) == Ok::<ValueModel, ErrorModel>(
                    v@,
                ),
                Err(e) => eval_expr(*self, *runtime, *parse_float) == Err::<ValueModel, ErrorModel>(
                    e@,
                ),
            },
        decreases self,
    {
        match self {
            Expression::Literal(x) => Ok(ValueCow::Borrowed(x)),
            Expression::Variable(v) => {
                let path = match v.evaluate(runtime, parse_float) {
                    Ok(p) => p,
                    Err(e) => {
                        return Err(e);
                    },
                };
                runtime.get(path.as_slice())
            },
            Expression::Range(b) => {
                let s = match b.0.evaluate(runtime, parse_float) {
                    Ok(v) => v,
                    Err(e) => {
                        return Err(e);
                    },
                };
                if s.is_shared() {
                    return Err(invalid_integer_error());
                }
                let start = match range_bound_to_i64(s.as_view(), parse_float) {
                    Ok(x) => x,
                    Err(e) => {
                        return Err(e);
                    },
                };
                let t = match b.1.evaluate(runtime, parse_float) {
                    Ok(v) => v,
                    Err(e) => {
                        return Err(e);
                    },
                };
                if t.is_shared() {
                    return Err(invalid_integer_error());
                }
                let stop = match range_bound_to_i64(t.as_view(), parse_float) {
                    Ok(x) => x,
                    Err(e) => {
                        return Err(e);
                    },
                };
                Ok(ValueCow::Shared(AssignedRangeValue::new(start, stop)))
            },
        }
    }

    /// Evaluates leniently: `None` when a variable cannot be found.
    pub fn try_evaluate<'c, R: Runtime, F: Fn(&str) -> Option<i64>>(
        &'c self,
        runtime: &'c R,
        parse_float: &F,
    ) -> (r: Option<ValueCow<'c>>)
        requires
            forall|s: &str| parse_float.requires((s,)),
            functional_parser(*parse_float),
        ensures
            match r {
                Some(v) => try_eval_expr(*self, *runtime, *parse_float) == Some(v@),
                None => try_eval_expr(*self, *runtime, *parse_float) is None,
            },
        decreases self,
    {
        match self {
            Expression::Literal(x) => Some(ValueCow::Borrowed(x)),
            Expression::Variable(v) => {
                let path = match v.try_evaluate(runtime, parse_float) {
                    Some(p) => p,
                    None => {
                        return None;
                    },
                };
                runtime.try_get(path.as_slice())
            },
            Expression::Range(_) => match self.evaluate(runtime, parse_float) {
                Ok(v) => Some(v),
                Err(_) => None,
            },
        }
    }
}

impl Variable {
    /// A reference to the variable named `value`.
    pub fn with_literal(value: Scalar) -> (r: Self)
        ensures
            r.spec_root() matches VariableRoot::Identifier(s) && s@ == value@,
            r.spec_indexes().len() == 0,
    {
        Variable { variable: VariableRoot::Identifier(value), indexes: Vec::new() }
    }

    /// A reference whose name `expression` computes.
    pub fn with_expression(expression: Expression) -> (r: Self)
        ensures
            r.spec_root() == VariableRoot::Expression(Box::new(expression)),
            r.spec_indexes().len() == 0,
    {
        Variable { variable: VariableRoot::Expression(Box::new(expression)), indexes: Vec::new() }
    }

    /// The root.
    pub closed spec fn spec_root(&self) -> VariableRoot {
        self.variable
    }

    /// The index expressions.
    pub closed spec fn spec_indexes(&self) -> Seq<Expression> {
        self.indexes@
    }

    /// Appends a literal index.
    pub fn push_literal(self, value: Scalar) -> (r: Self)
        ensures
            r.spec_root() == self.spec_root(),
            r.spec_indexes() == self.spec_indexes().push(Expression::Literal(Value::Scalar(value))),
    {
        let mut v = self;
        v.indexes.push(Expression::Literal(Value::Scalar(value)));
        v
    }

    /// Appends index expressions.
    pub fn extend(&mut self, indexes: Vec<Expression>)
        ensures
            final(self).spec_root() == old(self).spec_root(),
            final(self).spec_indexes() == old(self).spec_indexes() + indexes@,
    {
        let mut more = indexes;
        self.indexes.append(&mut more);
    }

    /// Evaluates strictly to a path.
    pub fn evaluate<R: Runtime, F: Fn(&str) -> Option<i64>>(
        &self,
        runtime: &R,
        parse_float: &F,
    ) -> (r: Result<Path, Error>)
        requires
            forall|s: &str| parse_float.requires((s,)),
            functional_parser(*parse_float),
        ensures
            match r {
                Ok(p) => eval_var(*self, *runtime, *parse_float) == Ok::<PathModel, ErrorModel>(p@),
                Err(e) => eval_var(*self, *runtime, *parse_float) == Err::<PathModel, ErrorModel>(
                    e@,
                ),
            },
        decreases self,
    {
        let root = match &self.variable {
            VariableRoot::Identifier(s) => s.copy(),
            VariableRoot::Expression(e) => {
                let v = match e.evaluate(runtime, parse_float) {
                    Ok(v) => v,
                    Err(err) => {
                        return Err(err);
                    },
                };
                match v.as_scalar() {
                    Some(s) => s.copy(),
                    None => {
                        return Err(expected_scalar_error(&v));
                    },
                }
            },
        };
        let ghost rm = root@;
        let mut path = Path::with_index(PathElement::dot(root));
        let n = self.indexes.len();
        let ghost all = self.indexes@;
        assert(all.subrange(0, n as int) =~= all);
        let mut i: usize = 0;
        while i < n
            invariant
                i <= n,
                n == all.len(),
                all == self.indexes@,
                forall|s: &str| parse_float.requires((s,)),
                functional_parser(*parse_float),
                eval_var(*self, *runtime, *parse_float) == eval_indexes(
                    all.subrange(i as int, n as int),
                    *runtime,
                    *parse_float,
                    path@,
                ),
            decreases n - i,
        {
            proof {
                broadcast use vstd::std_specs::vec::axiom_vec_decreases_to_view;
                assert(decreases_to!(*self => self.indexes));
                assert(decreases_to!(self.indexes => self.indexes@));
                assert(decreases_to!(self.indexes@ => self.indexes@[i as int]));
                let s = all.subrange(i as int, n as int);
                assert(s[0] == all[i as int]);
                assert(s.subrange(1, s.len() as int) =~= all.subrange(i + 1, n as int));
            }
            let v = match self.indexes[i].evaluate(runtime, parse_float) {
                Ok(v) => v,
                Err(err) => {
                    return Err(err);
                },
            };
            let s = match v.as_scalar() {
                Some(s) => s.copy(),
                None => {
                    return Err(expected_scalar_error(&v));
                },
            };
            path.push(PathElement::dot(s));
            i = i + 1;
        }
        Ok(path)
    }

    /// Evaluates leniently to a path: `None` when an index cannot be found or
    /// is not a scalar.
    pub fn try_evaluate<R: Runtime, F: Fn(&str) -> Option<i64>>(
        &self,
        runtime: &R,
        parse_float: &F,
    ) -> (r: Option<Path>)
        requires
            forall|s: &str| parse_float.requires((s,)),
            functional_parser(*parse_float),
        ensures
            match r {
                Some(p) => try_eval_var(*self, *runtime, *parse_float) == Some(p@),
                None => try_eval_var(*self, *runtime, *parse_float) is None,
            },
        decreases self,
    {
        let root = match &self.variable {
            VariableRoot::Identifier(s) => s.copy(),
            VariableRoot::Expression(e) => {
                let v = match e.try_evaluate(runtime, parse_float) {
                    Some(v) => v,
                    None => {
                        return None;
                    },
                };
                match v.as_scalar() {
                    Some(s) => s.copy(),
                    None => {
                        return None;
                    },
                }
            },
        };
        let mut path = Path::with_index(PathElement::dot(root));
        let n = self.indexes.len();
        let ghost all = self.indexes@;
        assert(all.subrange(0, n as int) =~= all);
        let mut i: usize = 0;
        while i < n
            invariant
                i <= n,
                n == all.len(),
                all == self.indexes@,
                forall|s: &str| parse_float.requires((s,)),
                functional_parser(*parse_float),
                try_eval_var(*self, *runtime, *parse_float) == try_eval_indexes(
                    all.subrange(i as int, n as int),
                    *runtime,
                    *parse_float,
                    path@,
                ),
            decreases n - i,
        {
            proof {
                broadcast use vstd::std_specs::vec::axiom_vec_decreases_to_view;
                assert(decreases_to!(*self => self.indexes));
                assert(decreases_to!(self.indexes => self.indexes@));
                assert(decreases_to!(self.indexes@ => self.indexes@[i as int]));
                let s = all.subrange(i as int, n as int);
                assert(s[0] == all[i as int]);
                assert(s.subrange(1, s.len() as int) =~= all.subrange(i + 1, n as int));
            }
            let v = match self.indexes[i].try_evaluate(runtime, parse_float) {
                Some(v) => v,
                None => {
                    return None;
                },
            };
            let s = match v.as_scalar() {
                Some(s) => s.copy(),
                None => {
                    return None;
                },
            };
            path.push(PathElement::dot(s));
            i = i + 1;
        }
        Some(path)
    }
}

/// Appending a literal index to a variable's index expressions extends the
/// path it evaluates to by that literal, strictly and leniently alike: an
/// error or a miss stays as it was.
pub proof fn law_push_literal_extends_path<R: Runtime, F: Fn(&str) -> Option<i64>>(
    before: Variable,
    value: Scalar,
    after: Variable,
    rt: R,
    pf: F,
)
    requires
        after.spec_root() == before.spec_root(),
        after.spec_indexes() == before.spec_indexes().push(
            Expression::Literal(Value::Scalar(value)),
        ),
    ensures
        eval_var(after, rt, pf) == (match eval_var(before, rt, pf) {
            Ok(p) => Ok(p.push((value@, PathAccess::Dot))),
            Err(e) => Err::<PathModel, ErrorModel>(e),
        }),
        try_eval_var(after, rt, pf) == (match try_eval_var(before, rt, pf) {
            Some(p) => Some(p.push((value@, PathAccess::Dot))),
            None => None::<PathModel>,
        }),
{
    let lit = Expression::Literal(Value::Scalar(value));
    let s = before.spec_indexes();
    match eval_var(before, rt, pf) {
        Ok(_) => {},
        Err(_) => {},
    }
    let root = match before.spec_root() {
        VariableRoot::Identifier(x) => Ok(x@),
        VariableRoot::Expression(e) => match eval_expr(*e, rt, pf) {
            Ok(ValueModel::Scalar(x)) => Ok(x),
            Ok(other) => Err(expected_scalar_msg(eval_source(*e, rt, pf, other))),
            Err(err) => Err(err),
        },
    };
    if let Ok(x) = root {
        lemma_eval_indexes_push_literal(s, value, rt, pf, seq![(x, PathAccess::Dot)]);
    }
    let troot = match before.spec_root() {
        VariableRoot::Identifier(x) => Some(x@),
        VariableRoot::Expression(e) => match try_eval_expr(*e, rt, pf) {
            Some(ValueModel::Scalar(x)) => Some(x),
            _ => None,
        },
    };
    if let Some(x) = troot {
        lemma_try_eval_indexes_push_literal(s, value, rt, pf, seq![(x, PathAccess::Dot)]);
    }
}

proof fn lemma_eval_indexes_push_literal<R: Runtime, F: Fn(&str) -> Option<i64>>(
    s: Seq<Expression>,
    value: Scalar,
    rt: R,
    pf: F,
    acc: PathModel,
)
    ensures
        eval_indexes(s.push(Expression::Literal(Value::Scalar(value))), rt, pf, acc) == (
        match eval_indexes(s, rt, pf, acc) {
            Ok(p) => Ok(p.push((value@, PathAccess::Dot))),
            Err(e) => Err::<PathModel, ErrorModel>(e),
        }),
    decreases s.len(),
{
    let lit = Expression::Literal(Value::Scalar(value));
    let t = s.push(lit);
    if s.len() == 0 {
        assert(t.subrange(1, t.len() as int) =~= Seq::<Expression>::empty());
        assert(t[0] == lit);
        assert(lit matches Expression::Literal(x) && x@ == ValueModel::Scalar(value@));
        assert(eval_expr(lit, rt, pf) == Ok::<ValueModel, ErrorModel>(ValueModel::Scalar(value@)));
        assert(eval_indexes(Seq::<Expression>::empty(), rt, pf, acc.push((value@, PathAccess::Dot)))
            == Ok::<PathModel, ErrorModel>(acc.push((value@, PathAccess::Dot))));
        assert(eval_indexes(s, rt, pf, acc) == Ok::<PathModel, ErrorModel>(acc));
    } else {
        let rest = s.subrange(1, s.len() as int);
        assert(t[0] == s[0]);
        assert(t.subrange(1, t.len() as int) =~= rest.push(lit));
        match eval_expr(s[0], rt, pf) {
            Ok(ValueModel::Scalar(x)) => {
                lemma_eval_indexes_push_literal(rest, value, rt, pf, acc.push((x, PathAccess::Dot)));
            },
            _ => {},
        }
    }
}

proof fn lemma_try_eval_indexes_push_literal<R: Runtime, F: Fn(&str) -> Option<i64>>(
    s: Seq<Expression>,
    value: Scalar,
    rt: R,
    pf: F,
    acc: PathModel,
)
    ensures
        try_eval_indexes(s.push(Expression::Literal(Value::Scalar(value))), rt, pf, acc) == (
        match try_eval_indexes(s, rt, pf, acc) {
            Some(p) => Some(p.push((value@, PathAccess::Dot))),
            None => None::<PathModel>,
        }),
    decreases s.len(),
{
    let lit = Expression::Literal(Value::Scalar(value));
    let t = s.push(lit);
    if s.len() == 0 {
        assert(t.subrange(1, t.len() as int) =~= Seq::<Expression>::empty());
        assert(t[0] == lit);
        assert(lit matches Expression::Literal(x) && x@ == ValueModel::Scalar(value@));
        assert(try_eval_expr(lit, rt, pf) == Some(ValueModel::Scalar(value@)));
        assert(try_eval_indexes(Seq::<Expression>::empty(), rt, pf, acc.push((value@, PathAccess::Dot)))
            == Some(acc.push((value@, PathAccess::Dot))));
        assert(try_eval_indexes(s, rt, pf, acc) == Some(acc));
    } else {
        let rest = s.subrange(1, s.len() as int);
        assert(t[0] == s[0]);
        assert(t.subrange(1, t.len() as int) =~= rest.push(lit));
        match try_eval_expr(s[0], rt, pf) {
            Some(ValueModel::Scalar(x)) => {
                lemma_try_eval_indexes_push_literal(
                    rest,
                    value,
                    rt,
                    pf,
                    acc.push((x, PathAccess::Dot)),
                );
            },
            _ => {},
        }
    }
}

} // verus!
