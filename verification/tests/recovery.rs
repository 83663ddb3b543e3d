use liquid_verified::messages::TrackedRenderError;
use liquid_verified::recovery::{
    after_render, FinalReply, RenderEnd, after_host_exception, after_renderer, after_runtime_error, after_tracked_errors, first_step,
    host_partial_read_failed, is_missing_host_partial, Recorded, RecoveryStep, RendererAnswer,
    Reply,
};

#[test]
fn strict_renders_and_raised_renderers_propagate() {
    assert!(matches!(first_step(None, true, false, "boom"), RecoveryStep::Propagate));
    assert!(matches!(first_step(None, false, true, "boom"), RecoveryStep::Propagate));
    assert!(matches!(
        first_step(Some("missing"), true, false, "x"),
        RecoveryStep::Propagate
    ));
    assert!(matches!(
        first_step(None, false, false, "Memory limits exceeded"),
        RecoveryStep::Propagate
    ));
}

#[test]
fn lenient_renders_pick_the_next_step() {
    match first_step(Some("Can't divide by zero"), false, false, "ignored") {
        RecoveryStep::BuildHostException { message } => {
            assert_eq!(message, "Liquid error: divided by 0")
        }
        _ => panic!("expected a host exception"),
    }
    assert!(matches!(
        first_step(None, false, false, "Unknown index\n requested index=3"),
        RecoveryStep::TakeTrackedErrors
    ));
    match first_step(None, false, false, "oops") {
        RecoveryStep::BuildRuntimeError { message } => assert_eq!(message, "oops"),
        _ => panic!("expected a runtime error"),
    }
}

#[test]
fn host_exceptions_are_recorded_and_shown() {
    let o = after_host_exception(true, false, "shown".to_string());
    assert!(matches!(o.recorded, Recorded::Exception));
    assert!(matches!(o.reply, Reply::Text(ref t) if t == "shown"));
    let o = after_host_exception(false, true, "shown".to_string());
    assert!(matches!(o.recorded, Recorded::Message(ref m) if m == "shown"));
    assert!(matches!(o.reply, Reply::CallRenderer));
}

#[test]
fn tracked_errors_answer_first() {
    match after_tracked_errors(Some("Can't divide by zero".to_string()), false, "m".to_string()) {
        Ok(o) => {
            assert!(matches!(o.recorded, Recorded::Exception));
            assert!(matches!(o.reply, Reply::Text(ref t) if t == "Liquid error: divided by 0"));
        }
        Err(_) => panic!("expected an outcome"),
    }
    assert!(matches!(
        after_tracked_errors(None, false, "m".to_string()),
        Err(RecoveryStep::BuildRuntimeError { .. })
    ));
}

#[test]
fn runtime_errors_keep_partial_output_for_unknown_names() {
    let o = after_runtime_error(true, true, "Unknown filter\n requested filter=x".to_string());
    assert!(matches!(o.reply, Reply::KeepPartial));
    let o = after_runtime_error(true, false, "boom".to_string());
    assert!(matches!(o.reply, Reply::ExceptionText));
    let o = after_runtime_error(false, false, "Can't divide by zero".to_string());
    assert!(matches!(o.recorded, Recorded::Message(ref m) if m == "Can't divide by zero"));
    assert!(matches!(o.reply, Reply::Text(ref t) if t == "Liquid error: divided by 0"));
}

#[test]
fn renderer_answers_replace_or_raise() {
    assert!(matches!(after_renderer(Some("x".to_string())), RendererAnswer::Replace(ref t) if t == "x"));
    assert!(matches!(after_renderer(None), RendererAnswer::Raised));
}

#[test]
fn missing_host_partials_are_absent_not_errors() {
    assert!(is_missing_host_partial(
        "Liquid::FileSystemError",
        "No such template 'x'"
    ));
    assert!(!is_missing_host_partial("Liquid::FileSystemError", "Permission denied"));
    assert!(!is_missing_host_partial("RuntimeError", "No such template 'x'"));
    assert!(matches!(
        host_partial_read_failed("x", "Liquid::FileSystemError", "No such template 'x'"),
        Ok(None)
    ));
    let e = host_partial_read_failed("x", "RuntimeError", "boom").unwrap_err();
    assert_eq!(
        e.to_string(),
        "liquid: Host partial load failed\n  with:\n    requested partial=x\n"
    );
}

fn msg(m: &str) -> TrackedRenderError {
    TrackedRenderError::Message(m.to_string())
}

fn failed(message: &str) -> RenderEnd {
    RenderEnd::Failed { message: message.to_string(), load_error: false, filter_error: false }
}

#[test]
fn finished_renders_log_each_recorded_error_once() {
    let v = after_render(false, RenderEnd::Rendered, false, vec![msg("a"), msg("b"), msg("a")], "out".to_string());
    assert!(v.logged_message.is_none());
    assert_eq!(v.logged_errors, vec![msg("a"), msg("b")]);
    assert!(matches!(v.reply, FinalReply::Output(ref t) if t == "out"));

    let v = after_render(false, RenderEnd::Rendered, true, vec![msg("b"), msg("a")], "out".to_string());
    assert!(matches!(v.reply, FinalReply::RaiseTracked(ref e) if *e == msg("b")));

    let v = after_render(false, RenderEnd::Rendered, true, vec![], "out".to_string());
    assert!(matches!(v.reply, FinalReply::Output(ref t) if t == "out"));
}

#[test]
fn host_failures_are_raised_again_before_anything_is_logged() {
    let v = after_render(true, RenderEnd::Rendered, false, vec![msg("a")], "out".to_string());
    assert!(matches!(v.reply, FinalReply::RaiseHostException));
    assert!(v.logged_errors.is_empty());

    let load = RenderEnd::Failed { message: "x".to_string(), load_error: true, filter_error: true };
    let v = after_render(false, load, false, vec![msg("a")], "out".to_string());
    assert!(matches!(v.reply, FinalReply::RaiseLoadError));
    assert!(v.logged_message.is_none() && v.logged_errors.is_empty());

    let filter = RenderEnd::Failed { message: "x".to_string(), load_error: false, filter_error: true };
    let v = after_render(false, filter, true, vec![], "out".to_string());
    assert!(matches!(v.reply, FinalReply::RaiseFilterError));
}

#[test]
fn failed_renders_pick_their_answer() {
    let v = after_render(false, failed("Unknown variable: x"), true, vec![msg("x missing")], "o".to_string());
    assert!(v.logged_message.is_none());
    assert!(matches!(v.reply, FinalReply::RaiseTracked(ref e) if *e == msg("x missing")));

    let v = after_render(false, failed("Unknown variable: x"), true, vec![], "o".to_string());
    assert_eq!(v.logged_message.as_deref(), Some("Unknown variable: x"));
    assert!(matches!(v.reply, FinalReply::RaiseRuntime(ref m) if m == "Unknown variable: x"));

    let v = after_render(false, failed("Memory limits exceeded"), false, vec![msg("a")], "o".to_string());
    assert_eq!(v.logged_errors, vec![msg("a")]);
    assert!(matches!(v.reply, FinalReply::Output(ref t) if t == "Liquid error: Memory limits exceeded"));

    let v = after_render(false, failed("boom"), false, vec![], "partial".to_string());
    assert!(matches!(v.reply, FinalReply::Output(ref t) if t == "partial"));
}
