//! Errors with a user-visible trace of where they happened.

use crate::kstring::KString;
use crate::text::{push_str, string_of};
use vstd::prelude::*;

verus! {

broadcast use vstd::seq::Seq::lemma_push_map_commute;

/// User-visible call trace: an optional description and key/value context.
#[derive(Debug)]
pub struct Trace {
    trace: Option<KString>,
    context: Vec<(KString, KString)>,
}

/// Abstract view of a trace.
pub struct TraceModel {
    /// The description of the frame.
    pub trace: Option<Seq<char>>,
    /// Key/value context, in the order it was added.
    pub context: Seq<(Seq<char>, Seq<char>)>,
}

/// The keys and values of a context, as characters.
pub open spec fn context_model(c: Seq<(KString, KString)>) -> Seq<(Seq<char>, Seq<char>)> {
    c.map_values(|p: (KString, KString)| (p.0@, p.1@))
}

impl View for Trace {
    type V = TraceModel;

    closed spec fn view(&self) -> TraceModel {
        TraceModel {
            trace: match self.trace {
                Some(t) => Some(t@),
                None => None,
            },
            context: context_model(self.context@),
        }
    }
}

impl Trace {
    /// A trace frame with a description.
    pub fn new(trace: KString) -> (r: Self)
        ensures
            r@.trace == Some(trace@),
            r@.context == Seq::<(Seq<char>, Seq<char>)>::empty(),
    {
        let r = Trace { trace: Some(trace), context: Vec::new() };
        assert(r@.context =~= Seq::<(Seq<char>, Seq<char>)>::empty());
        r
    }

    /// A trace frame without a description.
    pub fn empty() -> (r: Self)
        ensures
            r@.trace is None,
            r@.context == Seq::<(Seq<char>, Seq<char>)>::empty(),
    {
        let r = Trace { trace: None, context: Vec::new() };
        assert(r@.context =~= Seq::<(Seq<char>, Seq<char>)>::empty());
        r
    }

    /// Add a key/value pair to the context.
    pub fn append_context(&mut self, key: KString, value: KString)
        ensures
            final(self)@.trace == old(self)@.trace,
            final(self)@.context == old(self)@.context.push((key@, value@)),
    {
        let ghost k = key@;
        let ghost v = value@;
        self.context.push((key, value));
        assert(self@.context =~= old(self)@.context.push((k, v)));
    }

    /// The description of the frame.
    pub fn get_trace(&self) -> (r: Option<&str>)
        ensures
            match r {
                Some(t) => self@.trace == Some(t@),
                None => self@.trace is None,
            },
    {
        match &self.trace {
            Some(t) => Some(t.as_str()),
            None => None,
        }
    }

    /// The key/value context.
    pub fn get_context(&self) -> (r: &[(KString, KString)])
        ensures
            context_model(r@) == self@.context,
    {
        self.context.as_slice()
    }
}

/// A Liquid error: a message and the trace frames it passed through.
#[derive(Debug)]
pub struct Error {
    msg: KString,
    user_backtrace: Vec<Trace>,
}

/// Abstract view of an error.
pub struct ErrorModel {
    /// The message.
    pub msg: Seq<char>,
    /// The trace frames, innermost first.
    pub backtrace: Seq<TraceModel>,
}

impl View for Error {
    type V = ErrorModel;

    closed spec fn view(&self) -> ErrorModel {
        ErrorModel { msg: self.msg@, backtrace: self.user_backtrace@.map_values(|t: Trace| t@) }
    }
}

/// `"liquid: "`
pub open spec fn liquid_prefix() -> Seq<char> {
    seq!['l', 'i', 'q', 'u', 'i', 'd', ':', ' ']
}

/// The text of one context line: four spaces, `key=value` and a newline.
pub open spec fn context_line(kv: (Seq<char>, Seq<char>)) -> Seq<char> {
    seq![' ', ' ', ' ', ' '] + kv.0 + seq!['='] + kv.1 + seq!['\n']
}

/// The text of the context lines.
pub open spec fn context_text(c: Seq<(Seq<char>, Seq<char>)>) -> Seq<char>
    decreases c.len(),
{
    if c.len() == 0 {
        Seq::empty()
    } else {
        context_text(c.drop_last()) + context_line(c.last())
    }
}

/// The text of one trace frame: `from: <trace>` when there is a description,
/// `  with:` when there is context, then the context lines.
pub open spec fn trace_text(t: TraceModel) -> Seq<char> {
    (match t.trace {
        Some(d) => seq!['f', 'r', 'o', 'm', ':', ' '] + d + seq!['\n'],
        None => Seq::empty(),
    }) + (if t.context.len() > 0 {
        seq![' ', ' ', 'w', 'i', 't', 'h', ':', '\n']
    } else {
        Seq::empty()
    }) + context_text(t.context)
}

/// The text of all trace frames.
pub open spec fn backtrace_text(b: Seq<TraceModel>) -> Seq<char>
    decreases b.len(),
{
    if b.len() == 0 {
        Seq::empty()
    } else {
        backtrace_text(b.drop_last()) + trace_text(b.last())
    }
}

/// How an error is displayed: `liquid: <message>` on the first line, then
/// every trace frame.
pub open spec fn error_text(e: ErrorModel) -> Seq<char> {
    liquid_prefix() + e.msg + seq!['\n'] + backtrace_text(e.backtrace)
}

impl Error {
    /// An error with a message and one empty trace frame.
    pub fn with_msg(msg: &str) -> (r: Self)
        ensures
            r@.msg == msg@,
            r@.backtrace.len() == 1,
            r@.backtrace[0].trace is None,
            r@.backtrace[0].context == Seq::<(Seq<char>, Seq<char>)>::empty(),
    {
        Error::with_msg_string(KString::from_ref(msg))
    }

    /// An error with a message and one empty trace frame.
    pub fn with_msg_string(msg: KString) -> (r: Self)
        ensures
            r@.msg == msg@,
            r@.backtrace.len() == 1,
            r@.backtrace[0].trace is None,
            r@.backtrace[0].context == Seq::<(Seq<char>, Seq<char>)>::empty(),
    {
        let mut b: Vec<Trace> = Vec::new();
        b.push(Trace::empty());
        Error { msg, user_backtrace: b }
    }

    /// The message.
    pub fn message(&self) -> (r: &str)
        ensures
            r@ == self@.msg,
    {
        self.msg.as_str()
    }

    /// Add a new trace frame with a description.
    pub fn trace(self, trace: KString) -> (r: Self)
        ensures
            r@.msg == self@.msg,
            r@.backtrace == self@.backtrace.push(TraceModel {
                trace: Some(trace@),
                context: Seq::empty(),
            }),
    {
        let mut e = self;
        let t = Trace::new(trace);
        let ghost tm = t@;
        e.user_backtrace.push(t);
        assert(e@.backtrace =~= self@.backtrace.push(tm));
        e
    }

    /// Add context to the newest trace frame.
    pub fn context(self, key: KString, value: KString) -> (r: Self)
        requires
            self@.backtrace.len() > 0,
        ensures
            r@.msg == self@.msg,
            r@.backtrace == self@.backtrace.update(
                self@.backtrace.len() - 1,
                TraceModel {
                    trace: self@.backtrace.last().trace,
                    context: self@.backtrace.last().context.push((key@, value@)),
                },
            ),
    {
        let mut e = self;
        let n = e.user_backtrace.len();
        let mut last = e.user_backtrace.pop().unwrap();
        last.append_context(key, value);
        let ghost lm = last@;
        e.user_backtrace.push(last);
        assert(e@.backtrace =~= self@.backtrace.update(n - 1, lm));
        e
    }

    /// Renders the error the way it is displayed.
    pub fn to_string(&self) -> (r: String)
        ensures
            r@ == error_text(self@),
    {
        let mut out: Vec<char> = Vec::new();
        let pre: &'static str = "liquid: ";
        proof {
            reveal_strlit("liquid: ");
        }
        assert(pre@ =~= liquid_prefix());
        push_str(&mut out, pre);
        push_str(&mut out, self.msg.as_str());
        out.push('\n');
        let ghost b = self@.backtrace;
        let mut i: usize = 0;
        while i < self.user_backtrace.len()
            invariant
                i <= self.user_backtrace@.len(),
                b == self@.backtrace,
                b.len() == self.user_backtrace@.len(),
                forall|j: int| 0 <= j < b.len() ==> #[trigger] b[j] == self.user_backtrace@[j]@,
                out@ == liquid_prefix() + self@.msg + seq!['\n'] + backtrace_text(b.take(i as int)),
            decreases self.user_backtrace@.len() - i,
        {
            let t = &self.user_backtrace[i];
            let ghost before = out@;
            push_trace_text(&mut out, t);
            i = i + 1;
            assert(b.take(i as int).drop_last() =~= b.take(i - 1));
            assert(out@ =~= liquid_prefix() + self@.msg + seq!['\n'] + backtrace_text(b.take(i as int)));
        }
        assert(b.take(b.len() as int) =~= b);
        string_of(out.as_slice())
    }
}

fn push_trace_text(out: &mut Vec<char>, t: &Trace)
    ensures
        final(out)@ == old(out)@ + trace_text(t@),
{
    let ghost start = out@;
    match &t.trace {
        Some(d) => {
            let from: &'static str = "from: ";
            proof {
                reveal_strlit("from: ");
            }
            push_str(out, from);
            push_str(out, d.as_str());
            out.push('\n');
        }
        None => {}
    }
    let ghost after_trace = out@;
    assert(after_trace =~= start + match t@.trace {
        Some(d) => seq!['f', 'r', 'o', 'm', ':', ' '] + d + seq!['\n'],
        None => Seq::<char>::empty(),
    });
    if t.context.len() > 0 {
        let with: &'static str = "  with:\n";
        proof {
            reveal_strlit("  with:\n");
        }
        push_str(out, with);
    }
    let ghost after_with = out@;
    let ghost c = t@.context;
    assert(c.len() == t.context@.len());
    let mut i: usize = 0;
    while i < t.context.len()
        invariant
            i <= t.context@.len(),
            c == context_model(t.context@),
            out@ == after_with + context_text(c.take(i as int)),
        decreases t.context@.len() - i,
    {
        let ghost before = out@;
        let indent: &'static str = "    ";
        proof {
            reveal_strlit("    ");
        }
        push_str(out, indent);
        push_str(out, t.context[i].0.as_str());
        out.push('=');
        push_str(out, t.context[i].1.as_str());
        out.push('\n');
        i = i + 1;
        assert(c.take(i as int).drop_last() =~= c.take(i - 1));
        assert(out@ =~= after_with + context_text(c.take(i as int)));
    }
    assert(c.take(c.len() as int) =~= c);
    assert(out@ =~= start + trace_text(t@));
}

impl Trace {
    /// A copy of the frame.
    pub fn duplicate(&self) -> (r: Trace)
        ensures
            r@ == self@,
    {
        let trace = match &self.trace {
            Some(t) => Some(t.clone()),
            None => None,
        };
        let mut context: Vec<(KString, KString)> = Vec::new();
        let mut i: usize = 0;
        while i < self.context.len()
            invariant
                i <= self.context@.len(),
                context_model(context@) == context_model(self.context@).take(i as int),
            decreases self.context@.len() - i,
        {
            let k = self.context[i].0.clone();
            let v = self.context[i].1.clone();
            context.push((k, v));
            i = i + 1;
            assert(context_model(context@) =~= context_model(self.context@).take(i as int));
        }
        assert(context_model(self.context@).take(self.context@.len() as int) =~= context_model(
            self.context@,
        ));
        Trace { trace, context }
    }
}

impl Error {
    /// A copy of the error.
    pub fn duplicate(&self) -> (r: Error)
        ensures
            r@ == self@,
    {
        let mut b: Vec<Trace> = Vec::new();
        let mut i: usize = 0;
        while i < self.user_backtrace.len()
            invariant
                i <= self.user_backtrace@.len(),
                b@.map_values(|t: Trace| t@) == self.user_backtrace@.map_values(|t: Trace| t@).take(
                    i as int,
                ),
            decreases self.user_backtrace@.len() - i,
        {
            let t = self.user_backtrace[i].duplicate();
            b.push(t);
            i = i + 1;
            assert(b@.map_values(|t: Trace| t@) =~= self.user_backtrace@.map_values(|t: Trace| t@).take(
                i as int,
            ));
        }
        assert(self.user_backtrace@.map_values(|t: Trace| t@).take(self.user_backtrace@.len() as int)
            =~= self.user_backtrace@.map_values(|t: Trace| t@));
        let r = Error { msg: self.msg.clone(), user_backtrace: b };
        assert(r@.backtrace =~= self@.backtrace);
        r
    }
}

impl Clone for Error {
    fn clone(&self) -> (r: Self)
        ensures
            r@ == self@,
    {
        self.duplicate()
    }
}

} // verus!
