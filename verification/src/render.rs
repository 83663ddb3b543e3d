//! The text a value renders to, and its source form.

use crate::text::{push_chars, push_str, string_of};
use crate::value::{
    lemma_entries_model, lemma_models_of, model_of, scalar_text, ScalarModel, State, Value,
    ValueModel,
};
use vstd::prelude::*;

verus! {

/// The text a value renders to: scalars as themselves, arrays and objects as
/// the concatenation of their parts, nil and states as nothing.
pub open spec fn render_text(v: ValueModel) -> Seq<char>
    decreases v, 1nat,
{
    match v {
        ValueModel::Scalar(s) => scalar_text(s),
        ValueModel::Array(a) => render_items(a),
        ValueModel::Object(es) => render_entries(es),
        _ => Seq::empty(),
    }
}

/// The rendered items of an array, concatenated.
pub open spec fn render_items(a: Seq<ValueModel>) -> Seq<char>
    decreases a, 0nat,
{
    if a.len() == 0 {
        Seq::empty()
    } else {
        render_items(a.subrange(0, a.len() - 1)) + render_text(a[a.len() - 1])
    }
}

/// Each key followed by its rendered value, concatenated.
pub open spec fn render_entries(es: Seq<(Seq<char>, ValueModel)>) -> Seq<char>
    decreases es, 0nat,
{
    if es.len() == 0 {
        Seq::empty()
    } else {
        render_entries(es.subrange(0, es.len() - 1)) + es[es.len() - 1].0 + render_text(
            es[es.len() - 1].1,
        )
    }
}

/// `[a, b, ]`: each rendered item followed by `, `, in brackets.
pub open spec fn source_items(a: Seq<ValueModel>) -> Seq<char>
    decreases a.len(),
{
    if a.len() == 0 {
        Seq::empty()
    } else {
        source_items(a.drop_last()) + render_text(a.last()) + seq![',', ' ']
    }
}

/// `"k": v, ` for each entry.
pub open spec fn source_entries(es: Seq<(Seq<char>, ValueModel)>) -> Seq<char>
    decreases es.len(),
{
    if es.len() == 0 {
        Seq::empty()
    } else {
        source_entries(es.drop_last()) + seq!['"'] + es.last().0 + seq!['"', ':', ' ']
            + render_text(es.last().1) + seq![',', ' ']
    }
}

/// The name of a state.
pub open spec fn state_word(s: State) -> Seq<char> {
    match s {
        State::Truthy => seq!['t', 'r', 'u', 't', 'h', 'y'],
        State::DefaultValue => seq!['d', 'e', 'f', 'a', 'u', 'l', 't'],
        State::Empty => seq!['e', 'm', 'p', 't', 'y'],
        State::Blank => seq!['b', 'l', 'a', 'n', 'k'],
    }
}

/// The source form of a value: strings quoted, arrays and objects with their
/// parts listed, nil as `nil`.
pub open spec fn source_text(v: ValueModel) -> Seq<char> {
    match v {
        ValueModel::Scalar(ScalarModel::Str(t)) => seq!['"'] + t + seq!['"'],
        ValueModel::Scalar(s) => scalar_text(s),
        ValueModel::Array(a) => seq!['['] + source_items(a) + seq![']'],
        ValueModel::Object(es) => seq!['{'] + source_entries(es) + seq!['}'],
        ValueModel::State(s) => state_word(s),
        ValueModel::Nil => seq!['n', 'i', 'l'],
    }
}

/// Appends the rendered text of `v`.
pub fn push_render(out: &mut Vec<char>, v: &Value)
    ensures
        final(out)@ == old(out)@ + render_text(v@),
    decreases v,
{
    let ghost start = out@;
    match v {
        Value::Scalar(s) => {
            let k = s.to_kstr();
            push_str(out, k.as_str());
        },
        Value::Array(a) => {
            proof {
                lemma_models_of(a@);
            }
            let ghost items = crate::value::models_of(a@);
            let mut i: usize = 0;
            while i < a.len()
                invariant
                    i <= a@.len(),
                    items.len() == a@.len(),
                    forall|j: int| 0 <= j < a@.len() ==> #[trigger] items[j] == model_of(a@[j]),
                    *v == Value::Array(*a),
                    out@ == start + render_items(items.subrange(0, i as int)),
                decreases a@.len() - i,
            {
                proof {
                    broadcast use vstd::std_specs::vec::axiom_vec_decreases_to_view;
                    assert(decreases_to!(*v => (*v)->Array_0));
                    assert(decreases_to!(*a => a@));
                    assert(decreases_to!(a@ => a@[i as int]));
                    assert(decreases_to!(*v => a@[i as int]));
                }
                push_render(out, &a[i]);
                proof {
                    let t = items.subrange(0, i + 1);
                    assert(t.subrange(0, t.len() - 1) =~= items.subrange(0, i as int));
                    assert(t[t.len() - 1] == a@[i as int]@);
                }
                i = i + 1;
            }
            assert(items.subrange(0, a@.len() as int) =~= items);
        },
        Value::Object(o) => {
            let n = o.len();
            let ghost es = o.model();
            let mut i: usize = 0;
            while i < n
                invariant
                    i <= n,
                    n == es.len(),
                    es == o.model(),
                    *v == Value::Object(*o),
                    out@ == start + render_entries(es.subrange(0, i as int)),
                decreases n - i,
            {
                proof {
                    o.lemma_model();
                    lemma_entries_model(o.entries@);
                }
                let entry = &o.entries[i];
                let key = &entry.0;
                let value = &entry.1;
                proof {
                    o.lemma_model();
                    lemma_entries_model(o.entries@);
                    broadcast use vstd::std_specs::vec::axiom_vec_decreases_to_view;
                    assert(decreases_to!(*v => (*v)->Object_0));
                    assert(decreases_to!(*o => o.entries));
                    assert(decreases_to!(o.entries => o.entries@));
                    assert(decreases_to!(o.entries@ => o.entries@[i as int]));
                    assert(decreases_to!(o.entries@[i as int] => o.entries@[i as int].1));
                    assert(*value == o.entries@[i as int].1);
                }
                push_str(out, key.as_str());
                push_render(out, value);
                proof {
                    let t = es.subrange(0, i + 1);
                    assert(t.subrange(0, t.len() - 1) =~= es.subrange(0, i as int));
                    assert(t[t.len() - 1] == es[i as int]);
                }
                i = i + 1;
            }
            assert(es.subrange(0, n as int) =~= es);
        },
        _ => {},
    }
}

/// The rendered text of `v`.
pub fn render(v: &Value) -> (r: String)
    ensures
        r@ == render_text(v@),
{
    let mut out: Vec<char> = Vec::new();
    push_render(&mut out, v);
    assert(out@ =~= render_text(v@));
    string_of(out.as_slice())
}

/// The source form of `v`.
pub fn source(v: &Value) -> (r: String)
    ensures
        r@ == source_text(v@),
{
    let mut out: Vec<char> = Vec::new();
    match v {
        Value::Scalar(s) => {
            let k = s.to_kstr();
            if s.is_string() {
                out.push('"');
                push_str(&mut out, k.as_str());
                out.push('"');
            } else {
                push_str(&mut out, k.as_str());
            }
        },
        Value::Array(a) => {
            proof {
                lemma_models_of(a@);
            }
            let ghost items = crate::value::models_of(a@);
            out.push('[');
            let mut i: usize = 0;
            while i < a.len()
                invariant
                    i <= a@.len(),
                    items.len() == a@.len(),
                    forall|j: int| 0 <= j < a@.len() ==> #[trigger] items[j] == model_of(a@[j]),
                    out@ == seq!['['] + source_items(items.subrange(0, i as int)),
                decreases a@.len() - i,
            {
                push_render(&mut out, &a[i]);
                out.push(',');
                out.push(' ');
                proof {
                    let t = items.subrange(0, i + 1);
                    assert(t.drop_last() =~= items.subrange(0, i as int));
                    assert(t.last() == a@[i as int]@);
                }
                i = i + 1;
            }
            assert(items.subrange(0, a@.len() as int) =~= items);
            out.push(']');
        },
        Value::Object(o) => {
            let n = o.len();
            let ghost es = o.model();
            out.push('{');
            let mut i: usize = 0;
            while i < n
                invariant
                    i <= n,
                    n == es.len(),
                    es == o.model(),
                    out@ == seq!['{'] + source_entries(es.subrange(0, i as int)),
                decreases n - i,
            {
                let key = o.key_at(i);
                let value = o.value_at(i);
                out.push('"');
                push_str(&mut out, key.as_str());
                out.push('"');
                out.push(':');
                out.push(' ');
                push_render(&mut out, value);
                out.push(',');
                out.push(' ');
                proof {
                    let t = es.subrange(0, i + 1);
                    assert(t.drop_last() =~= es.subrange(0, i as int));
                    assert(t.last() == es[i as int]);
                }
                i = i + 1;
            }
            assert(es.subrange(0, n as int) =~= es);
            out.push('}');
        },
        Value::State(s) => {
            let w: &'static str = match s {
                State::Truthy => {
                    proof {
                        reveal_strlit("truthy");
                    }
                    "truthy"
                },
                State::DefaultValue => {
                    proof {
                        reveal_strlit("default");
                    }
                    "default"
                },
                State::Empty => {
                    proof {
                        reveal_strlit("empty");
                    }
                    "empty"
                },
                State::Blank => {
                    proof {
                        reveal_strlit("blank");
                    }
                    "blank"
                },
            };
            push_str(&mut out, w);
        },
        Value::Nil => {
            let w: &'static str = "nil";
            proof {
                reveal_strlit("nil");
            }
            push_str(&mut out, w);
        },
    }
    assert(out@ =~= source_text(v@));
    string_of(out.as_slice())
}

} // verus!
