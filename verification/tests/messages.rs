use liquid_verified::messages::{
    dedupe_tracked_errors, extract_context_value, extract_line_number, is_memory_limit_error,
    liquid_message, non_strict_error_output, normalize_error_message,
    normalize_exception_message, normalize_host_error_message, preserve_partial_output,
    render_default_error_output, render_error_placeholder, RenderErrorMetadata,
    TrackedRenderError,
};

#[test]
fn host_messages_of_liquid_exceptions_lose_their_prefix() {
    assert_eq!(
        normalize_host_error_message("Liquid::ArgumentError", "Liquid error: bad".to_string()),
        "bad"
    );
    assert_eq!(
        normalize_host_error_message(
            "Liquid::SyntaxError",
            "Liquid syntax error: oops".to_string()
        ),
        "oops"
    );
    assert_eq!(
        normalize_host_error_message("RuntimeError", "Liquid error: bad".to_string()),
        "Liquid error: bad"
    );
    assert_eq!(
        normalize_exception_message("Liquid::Error", "Liquid error: x".to_string()),
        "x"
    );
    assert_eq!(liquid_message("boom"), "liquid: boom");
}

#[test]
fn context_values_come_from_the_first_line_that_holds_the_key() {
    let message = "Unknown filter\n  with:\n    requested filter= upcasex \n";
    assert_eq!(
        extract_context_value(message, "requested filter="),
        Some("upcasex".to_string())
    );
    assert_eq!(extract_context_value(message, "missing="), None);
}

#[test]
fn line_numbers_follow_the_arrow() {
    assert_eq!(extract_line_number("error\n --> 12:3\n"), Some(12));
    assert_eq!(extract_line_number(" -->x\n -->  7"), Some(7));
    assert_eq!(extract_line_number("no arrow here"), None);
    assert_eq!(extract_line_number("--> 99999999999999999999999"), None);
}

#[test]
fn errors_are_summarized_in_host_wording() {
    let unknown_filter = "liquid: Unknown filter\n --> 3:1\n  with:\n    requested filter=foo";
    let meta = RenderErrorMetadata::from_raw(unknown_filter);
    assert_eq!(meta.message, "undefined filter foo");
    assert_eq!(meta.line_number, Some(3));
    assert_eq!(meta.render(), "Liquid error (line 3): undefined filter foo");

    assert_eq!(
        render_default_error_output("Can't divide by zero"),
        "Liquid error: divided by 0"
    );
    assert_eq!(
        render_default_error_output("Unknown variable\n requested variable=user"),
        "Liquid error: undefined variable user"
    );
    assert_eq!(
        render_default_error_output("Undefined drop method"),
        "Liquid error: undefined drop method"
    );
}

#[test]
fn error_messages_are_normalized() {
    assert_eq!(
        normalize_error_message("Unknown tag.\n requested=else"),
        "Unexpected outer 'else' tag"
    );
    assert_eq!(
        normalize_error_message("Unknown tag.\n requested=foo"),
        "Unknown tag 'foo'"
    );
    assert_eq!(normalize_error_message("Unknown tag."), "Unknown tag");
    assert_eq!(
        normalize_error_message("expected Identifier or Value"),
        "is not a valid expression"
    );
    assert_eq!(normalize_error_message("oops\n   = the cause \n"), "the cause");
    assert_eq!(
        normalize_error_message("  liquid: Liquid error: deep \nfrom: backtrace"),
        "deep"
    );
}

#[test]
fn non_strict_output_keeps_liquid_messages() {
    assert!(is_memory_limit_error("x Memory limits exceeded y"));
    assert_eq!(
        non_strict_error_output("Memory limits exceeded"),
        "Liquid error: Memory limits exceeded"
    );
    assert_eq!(
        non_strict_error_output("Liquid syntax error: bad"),
        "Liquid syntax error: bad"
    );
    assert_eq!(
        non_strict_error_output("Can't divide by zero"),
        "Liquid error: divided by 0"
    );
    assert!(preserve_partial_output("Unknown variable"));
    assert!(!preserve_partial_output("Can't divide by zero"));
}

#[test]
fn placeholders_name_the_error_kind() {
    let m = TrackedRenderError::Message("boom".to_string());
    assert_eq!(render_error_placeholder(&m), "Liquid error: boom");
    let m = TrackedRenderError::Message("Liquid syntax error: x".to_string());
    assert_eq!(render_error_placeholder(&m), "Liquid syntax error: x");
    let e = TrackedRenderError::Exception {
        class_name: "Liquid::SyntaxError".to_string(),
        message: "bad".to_string(),
    };
    assert_eq!(render_error_placeholder(&e), "Liquid syntax error: bad");
    let e = TrackedRenderError::Exception {
        class_name: "RuntimeError".to_string(),
        message: "bad".to_string(),
    };
    assert_eq!(render_error_placeholder(&e), "Liquid error: bad");
}

#[test]
fn repeated_errors_are_dropped_in_order() {
    let a = TrackedRenderError::Message("a".to_string());
    let b = TrackedRenderError::Exception {
        class_name: "X".to_string(),
        message: "a".to_string(),
    };
    let out = dedupe_tracked_errors(vec![a.clone(), b.clone(), a.clone(), b.clone(), a.clone()]);
    assert_eq!(out, vec![a.clone(), b.clone()]);
    assert_eq!(dedupe_tracked_errors(out.clone()), out);
    assert!(dedupe_tracked_errors(vec![]).is_empty());
}
