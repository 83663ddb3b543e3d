use liquid_verified::tags::{
    parse_capture_target, AssignTag, CaptureBlock, EchoTag, IncludeTag, ParseMode, RenderTag,
};

fn target(raw: &str) -> Option<String> {
    parse_capture_target(raw).map(|k| k.as_str().to_string())
}

#[test]
fn capture_accepts_plain_quoted_and_hyphenated_names() {
    assert_eq!(target("attribute_name"), Some("attribute_name".to_string()));
    assert_eq!(target("'quoted'"), Some("quoted".to_string()));
    assert_eq!(target("\"double\""), Some("double".to_string()));
    assert_eq!(target("my-var.x[0](y)"), Some("my-var.x[0](y)".to_string()));
}

#[test]
fn capture_rejects_empty_and_odd_names() {
    assert_eq!(target(""), None);
    assert_eq!(target("''"), None);
    assert_eq!(target("'"), None);
    assert_eq!(target("a b"), None);
    assert_eq!(target("'mixed\""), None);
    assert_eq!(target("é"), None);
}

#[test]
fn tags_report_their_names() {
    assert_eq!(AssignTag::new().tag(), "assign");
    assert_eq!(EchoTag::new().tag(), "echo");
    assert_eq!(IncludeTag::new().tag(), "include");
    assert_eq!(RenderTag::new().tag(), "render");
    assert_eq!(
        RenderTag::new().description(),
        "insert the rendered content of another template in this template"
    );
    assert_eq!(AssignTag::new().description(), "");
    let c = CaptureBlock::new();
    assert_eq!(c.start_tag(), "capture");
    assert_eq!(c.end_tag(), "endcapture");
    assert_eq!(c.description(), "");
}

#[test]
fn parsing_is_strict_by_default() {
    assert!(matches!(ParseMode::default(), ParseMode::Strict));
}
