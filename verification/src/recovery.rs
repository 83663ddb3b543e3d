//! How a host embedding recovers from a render error: the decisions taken
//! between its own steps (building exception values, asking the template's
//! exception renderer), as a small state machine. The host performs each
//! step and hands back what came of it.

use crate::messages::{
    dedupe_tracked_errors, errors_model, first_occurrences, TrackedRenderError,
    default_error_output, is_memory_limit_error, keeps_partial_output, memory_limit_error,
    non_strict_error_output, non_strict_output, preserve_partial_output,
    render_default_error_output,
};
use crate::error::{Error, ErrorModel, TraceModel};
use crate::kstring::KString;
use crate::strs::{contains, starts_with, str_contains, str_starts_with};
use crate::text::str_eq;
use vstd::prelude::*;

verus! {

/// The first thing to do with a render error.
pub enum RecoveryStep {
    /// Give the error back: the render fails with it.
    Propagate,
    /// Build the host exception for a partial that could not be loaded, then
    /// continue with [`after_host_exception`]; `message` is what is shown.
    BuildHostException { message: String },
    /// Take the errors the tracked globals recorded, then continue with
    /// [`after_tracked_errors`].
    TakeTrackedErrors,
    /// Build a runtime-error value for `message`, then continue with
    /// [`after_runtime_error`].
    BuildRuntimeError { message: String },
}

/// What is recorded among the errors the render handled.
pub enum Recorded {
    /// The exception value the host built.
    Exception,
    /// A message, where no exception value could be built.
    Message(String),
}

/// What replaces the output of the failed node.
pub enum Reply {
    /// Ask the exception renderer; continue with [`after_renderer`].
    CallRenderer,
    /// This text.
    Text(String),
    /// The text of the exception value the host built.
    ExceptionText,
    /// Nothing: the output rendered before the error is kept.
    KeepPartial,
}

/// A recorded error and the reply to the renderer.
pub struct Outcome {
    pub recorded: Recorded,
    pub reply: Reply,
}

/// What follows the exception renderer's answer.
pub enum RendererAnswer {
    /// Its text replaces the failed output.
    Replace(String),
    /// It raised: that exception is kept to be raised after the render, and
    /// the render fails with `exception renderer raised`.
    Raised,
}

/// The first step for a render error. In strict mode, once an exception
/// renderer has raised, and for memory-limit failures the error propagates;
/// unknown variables and indexes first consult the tracked globals.
pub fn first_step(load_error: Option<&str>, strict: bool, raised: bool, message: &str) -> (r:
    RecoveryStep)
    ensures
        match load_error {
            Some(m) => if strict || raised {
                r is Propagate
            } else {
                r matches RecoveryStep::BuildHostException { message: t } && t@
                    == default_error_output(m@)
            },
            None => if strict || memory_limit_error(message@) || raised {
                r is Propagate
            } else if contains(message@, "Unknown variable"@) || contains(
                message@,
                "Unknown index"@,
            ) {
                r is TakeTrackedErrors
            } else {
                r matches RecoveryStep::BuildRuntimeError { message: t } && t@ == message@
            },
        },
{
    match load_error {
        Some(m) => {
            if strict || raised {
                RecoveryStep::Propagate
            } else {
                RecoveryStep::BuildHostException { message: render_default_error_output(m) }
            }
        },
        None => {
            if strict || is_memory_limit_error(message) || raised {
                RecoveryStep::Propagate
            } else if str_contains(message, "Unknown variable") || str_contains(
                message,
                "Unknown index",
            ) {
                RecoveryStep::TakeTrackedErrors
            } else {
                RecoveryStep::BuildRuntimeError { message: message.to_string() }
            }
        },
    }
}

/// Whether `r` records `built`'s exception value, or else `message`.
pub open spec fn records(r: Recorded, built: bool, message: Seq<char>) -> bool {
    if built {
        r is Exception
    } else {
        r matches Recorded::Message(m) && m@ == message
    }
}

/// Whether `r` is the text `t`.
pub open spec fn is_text(r: Reply, t: Seq<char>) -> bool {
    r matches Reply::Text(u) && u@ == t
}

/// After the host exception for a failed partial load was built (or could
/// not be): it is recorded, and the renderer is asked when there is one;
/// else the message is shown.
pub fn after_host_exception(built: bool, has_renderer: bool, message: String) -> (r: Outcome)
    ensures
        records(r.recorded, built, message@),
        if has_renderer {
            r.reply is CallRenderer
        } else {
            is_text(r.reply, message@)
        },
{
    let recorded = if built {
        Recorded::Exception
    } else {
        Recorded::Message(message.clone())
    };
    let reply = if has_renderer {
        Reply::CallRenderer
    } else {
        Reply::Text(message)
    };
    Outcome { recorded, reply }
}

/// After the tracked globals' errors were taken: the first one, if any, is
/// recorded and answered with the renderer or its non-strict output; else a
/// runtime-error value is to be built for `message`.
pub fn after_tracked_errors(first_error: Option<String>, has_renderer: bool, message: String) -> (r:
    Result<Outcome, RecoveryStep>)
    ensures
        match first_error {
            Some(f) => r matches Ok(o) && o.recorded is Exception && if has_renderer {
                o.reply is CallRenderer
            } else {
                is_text(o.reply, non_strict_output(f@))
            },
            None => r matches Err(RecoveryStep::BuildRuntimeError { message: t }) && t@ == message@,
        },
{
    match first_error {
        Some(f) => {
            let reply = if has_renderer {
                Reply::CallRenderer
            } else {
                Reply::Text(non_strict_error_output(f.as_str()))
            };
            Ok(Outcome { recorded: Recorded::Exception, reply })
        },
        None => Err(RecoveryStep::BuildRuntimeError { message }),
    }
}

/// After a runtime-error value was built (or could not be): it, or the
/// message, is recorded; unknown filters, variables and drop methods keep
/// the partial output; else the renderer is asked, or the value's text or
/// the default output is shown.
pub fn after_runtime_error(built: bool, has_renderer: bool, message: String) -> (r: Outcome)
    ensures
        records(r.recorded, built, message@),
        if keeps_partial_output(message@) {
            r.reply is KeepPartial
        } else if has_renderer {
            r.reply is CallRenderer
        } else if built {
            r.reply is ExceptionText
        } else {
            is_text(r.reply, default_error_output(message@))
        },
{
    let keep = preserve_partial_output(message.as_str());
    let reply = if keep {
        Reply::KeepPartial
    } else if has_renderer {
        Reply::CallRenderer
    } else if built {
        Reply::ExceptionText
    } else {
        Reply::Text(render_default_error_output(message.as_str()))
    };
    let recorded = if built {
        Recorded::Exception
    } else {
        Recorded::Message(message)
    };
    Outcome { recorded, reply }
}

/// After the exception renderer answered: its text replaces the output, or
/// its exception is kept and the render fails.
pub fn after_renderer(answer: Option<String>) -> (r: RendererAnswer)
    ensures
        match answer {
            Some(t) => r matches RendererAnswer::Replace(u) && u@ == t@,
            None => r is Raised,
        },
{
    match answer {
        Some(t) => RendererAnswer::Replace(t),
        None => RendererAnswer::Raised,
    }
}

/// Whether a host file-system error means the partial does not exist.
pub open spec fn missing_partial(class_name: Seq<char>, message: Seq<char>) -> bool {
    class_name == "Liquid::FileSystemError"@ && starts_with(message, "No such template "@)
}

/// Whether a host file-system error means the partial does not exist.
pub fn is_missing_host_partial(class_name: &str, message: &str) -> (r: bool)
    ensures
        r == missing_partial(class_name@, message@),
{
    str_eq(class_name, "Liquid::FileSystemError") && str_starts_with(message, "No such template ")
}

/// The error for a partial the host failed to read.
pub open spec fn partial_load_failure(name: Seq<char>) -> ErrorModel {
    ErrorModel {
        msg: "Host partial load failed"@,
        backtrace: seq![TraceModel { trace: None, context: seq![("requested partial"@, name)] }],
    }
}

/// What reading the partial `name` gives when the host raised
/// `class_name: message`: no partial when the template does not exist, else
/// a load failure.
pub fn host_partial_read_failed(name: &str, class_name: &str, message: &str) -> (r: Result<
    Option<String>,
    Error,
>)
    ensures
        if missing_partial(class_name@, message@) {
            r matches Ok(None)
        } else {
            r matches Err(e) && e@ == partial_load_failure(name@)
        },
{
    if is_missing_host_partial(class_name, message) {
        return Ok(None);
    }
    let e = Error::with_msg("Host partial load failed").context(
        KString::from_ref("requested partial"),
        KString::from_ref(name),
    );
    assert(e@.backtrace[0].context =~= partial_load_failure(name@).backtrace[0].context);
    assert(e@.backtrace =~= partial_load_failure(name@).backtrace);
    Err(e)
}

/// How a render ended.
pub enum RenderEnd {
    /// The template rendered.
    Rendered,
    /// The render failed with `message`; `load_error` and `filter_error` say
    /// whether the error was caused by a host partial that could not be
    /// loaded or by a host filter that failed.
    Failed { message: String, load_error: bool, filter_error: bool },
}

/// How a host answers the caller once a render is over.
pub enum FinalReply {
    /// Raise the exception the host raised during the render.
    RaiseHostException,
    /// Raise the host's partial-load error again.
    RaiseLoadError,
    /// Raise the host's filter error again.
    RaiseFilterError,
    /// Raise this recorded error.
    RaiseTracked(TrackedRenderError),
    /// Raise a runtime error with this message.
    RaiseRuntime(String),
    /// Return this text as the render's output.
    Output(String),
}

/// What a finished render records among its errors, in order (the failure's
/// message first, then the recorded errors), and how it answers.
pub struct RenderVerdict {
    pub logged_message: Option<String>,
    pub logged_errors: Vec<TrackedRenderError>,
    pub reply: FinalReply,
}

/// Whether a failure is a lookup of an unknown variable or index.
pub open spec fn unknown_lookup(message: Seq<char>) -> bool {
    contains(message, "Unknown variable"@) || contains(message, "Unknown index"@)
}

/// Whether `v` logs nothing.
pub open spec fn logs_nothing(v: RenderVerdict) -> bool {
    v.logged_message is None && v.logged_errors@.len() == 0
}

/// Whether `r` raises the recorded error `e`.
pub open spec fn raises_tracked(r: FinalReply, e: crate::messages::TrackedErrorView) -> bool {
    r matches FinalReply::RaiseTracked(t) && t@ == e
}

/// Whether `r` returns the text `t`.
pub open spec fn outputs(r: FinalReply, t: Seq<char>) -> bool {
    r matches FinalReply::Output(u) && u@ == t
}

/// The end of a render: an exception the host raised wins; then a host
/// partial-load or filter failure is raised again; a strict render raises its
/// first recorded error (after an unknown variable or index, when there is
/// one), or else the failure as a runtime error; a non-strict render returns
/// the memory-limit notice or what was rendered. Recorded errors are logged
/// once each, in the order they first occurred.
pub fn after_render(
    raised: bool,
    end: RenderEnd,
    strict: bool,
    recorded: Vec<TrackedRenderError>,
    rendered: String,
) -> (r: RenderVerdict)
    ensures
        ({
            let d = first_occurrences(errors_model(recorded@));
            if raised {
                logs_nothing(r) && r.reply is RaiseHostException
            } else {
                match end {
                    RenderEnd::Rendered => {
                        &&& r.logged_message is None
                        &&& errors_model(r.logged_errors@) == d
                        &&& if strict && d.len() > 0 {
                            raises_tracked(r.reply, d[0])
                        } else {
                            outputs(r.reply, rendered@)
                        }
                    },
                    RenderEnd::Failed { message, load_error, filter_error } => if load_error {
                        logs_nothing(r) && r.reply is RaiseLoadError
                    } else if filter_error {
                        logs_nothing(r) && r.reply is RaiseFilterError
                    } else if strict && unknown_lookup(message@) && d.len() > 0 {
                        &&& r.logged_message is None
                        &&& errors_model(r.logged_errors@) == d
                        &&& raises_tracked(r.reply, d[0])
                    } else {
                        &&& r.logged_message matches Some(m) && m@ == message@
                        &&& errors_model(r.logged_errors@) == d
                        &&& if strict {
                            r.reply matches FinalReply::RaiseRuntime(m) && m@ == message@
                        } else if memory_limit_error(message@) {
                            outputs(r.reply, non_strict_output(message@))
                        } else {
                            outputs(r.reply, rendered@)
                        }
                    },
                }
            }
        }),
{
    if raised {
        return RenderVerdict {
            logged_message: None,
            logged_errors: Vec::new(),
            reply: FinalReply::RaiseHostException,
        };
    }
    match end {
        RenderEnd::Rendered => {
            let unique = dedupe_tracked_errors(recorded);
            if strict && unique.len() > 0 {
                let first = unique[0].duplicate();
                RenderVerdict {
                    logged_message: None,
                    logged_errors: unique,
                    reply: FinalReply::RaiseTracked(first),
                }
            } else {
                RenderVerdict {
                    logged_message: None,
                    logged_errors: unique,
                    reply: FinalReply::Output(rendered),
                }
            }
        },
        RenderEnd::Failed { message, load_error, filter_error } => {
            if load_error {
                return RenderVerdict {
                    logged_message: None,
                    logged_errors: Vec::new(),
                    reply: FinalReply::RaiseLoadError,
                };
            }
            if filter_error {
                return RenderVerdict {
                    logged_message: None,
                    logged_errors: Vec::new(),
                    reply: FinalReply::RaiseFilterError,
                };
            }
            let unique = dedupe_tracked_errors(recorded);
            let lookup = str_contains(message.as_str(), "Unknown variable") || str_contains(
                message.as_str(),
                "Unknown index",
            );
            if strict && lookup && unique.len() > 0 {
                let first = unique[0].duplicate();
                return RenderVerdict {
                    logged_message: None,
                    logged_errors: unique,
                    reply: FinalReply::RaiseTracked(first),
                };
            }
            let reply = if strict {
                FinalReply::RaiseRuntime(message.clone())
            } else if is_memory_limit_error(message.as_str()) {
                FinalReply::Output(non_strict_error_output(message.as_str()))
            } else {
                FinalReply::Output(rendered)
            };
            RenderVerdict { logged_message: Some(message), logged_errors: unique, reply }
        },
    }
}

} // verus!
