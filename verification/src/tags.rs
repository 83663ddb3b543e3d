//! The standard tags and the `capture` block as the parser registers them:
//! their names, and the checks made on their arguments that need no parser;
//! and the parse mode.

use crate::kstring::KString;
use vstd::prelude::*;

verus! {

/// How strictly templates are parsed.
#[derive(Copy, Clone, Debug)]
pub enum ParseMode {
    Strict,
    Lax,
}

impl Default for ParseMode {
    /// Parsing is strict unless asked otherwise.
    fn default() -> (r: Self)
        ensures
            r == ParseMode::Strict,
    {
        ParseMode::Strict
    }
}

/// The `assign` tag.
#[derive(Copy, Clone, Debug, Default)]
pub struct AssignTag;

/// The `echo` tag.
#[derive(Copy, Clone, Debug, Default)]
pub struct EchoTag;

/// The `include` tag.
#[derive(Copy, Clone, Debug, Default)]
pub struct IncludeTag;

/// The `render` tag.
#[derive(Copy, Clone, Debug, Default)]
pub struct RenderTag;

/// The `capture` block.
#[derive(Copy, Clone, Debug, Default)]
pub struct CaptureBlock;

impl AssignTag {
    pub fn new() -> Self {
        AssignTag
    }

    /// The tag's name.
    pub fn tag(&self) -> (r: &'static str)
        ensures
            r@ == "assign"@,
    {
        "assign"
    }

    /// The tag's description.
    pub fn description(&self) -> (r: &'static str)
        ensures
            r@ == ""@,
    {
        ""
    }
}

impl EchoTag {
    pub fn new() -> Self {
        EchoTag
    }

    /// The tag's name.
    pub fn tag(&self) -> (r: &'static str)
        ensures
            r@ == "echo"@,
    {
        "echo"
    }

    /// The tag's description.
    pub fn description(&self) -> (r: &'static str)
        ensures
            r@ == ""@,
    {
        ""
    }
}

impl IncludeTag {
    pub fn new() -> Self {
        IncludeTag
    }

    /// The tag's name.
    pub fn tag(&self) -> (r: &'static str)
        ensures
            r@ == "include"@,
    {
        "include"
    }

    /// The tag's description.
    pub fn description(&self) -> (r: &'static str)
        ensures
            r@ == ""@,
    {
        ""
    }
}

impl RenderTag {
    pub fn new() -> Self {
        RenderTag
    }

    /// The tag's name.
    pub fn tag(&self) -> (r: &'static str)
        ensures
            r@ == "render"@,
    {
        "render"
    }

    /// The tag's description.
    pub fn description(&self) -> (r: &'static str)
        ensures
            r@ == "insert the rendered content of another template in this template"@,
    {
        "insert the rendered content of another template in this template"
    }
}

/// A character allowed in a capture target: an ASCII letter or digit, or
/// one of `_ - . [ ] ( )`.
pub open spec fn capture_char(c: char) -> bool {
    ('a' <= c && c <= 'z') || ('A' <= c && c <= 'Z') || ('0' <= c && c <= '9') || c == '_'
        || c == '-' || c == '.' || c == '[' || c == ']' || c == '(' || c == ')'
}

/// `raw` without one pair of enclosing single quotes, or else of double
/// quotes.
pub open spec fn unquoted(raw: Seq<char>) -> Seq<char> {
    if raw.len() >= 2 && raw[0] == '\'' && raw.last() == '\'' {
        raw.subrange(1, raw.len() - 1)
    } else if raw.len() >= 2 && raw[0] == '"' && raw.last() == '"' {
        raw.subrange(1, raw.len() - 1)
    } else {
        raw
    }
}

/// The variable a `capture` block assigns, named by the token `raw`: its
/// unquoted text, when that is not empty and made of allowed characters.
pub open spec fn capture_target_of(raw: Seq<char>) -> Option<Seq<char>> {
    let c = unquoted(raw);
    if c.len() > 0 && forall|i: int| 0 <= i < c.len() ==> capture_char(#[trigger] c[i]) {
        Some(c)
    } else {
        None
    }
}

fn is_capture_char(c: char) -> (r: bool)
    ensures
        r == capture_char(c),
{
    ('a' <= c && c <= 'z') || ('A' <= c && c <= 'Z') || ('0' <= c && c <= '9') || c == '_'
        || c == '-' || c == '.' || c == '[' || c == ']' || c == '(' || c == ')'
}

impl CaptureBlock {
    pub fn new() -> Self {
        CaptureBlock
    }

    /// The tag that opens the block.
    pub fn start_tag(&self) -> (r: &'static str)
        ensures
            r@ == "capture"@,
    {
        "capture"
    }

    /// The tag that closes the block.
    pub fn end_tag(&self) -> (r: &'static str)
        ensures
            r@ == "endcapture"@,
    {
        "endcapture"
    }

    /// The block's description.
    pub fn description(&self) -> (r: &'static str)
        ensures
            r@ == ""@,
    {
        ""
    }
}

/// The variable named by the token after `capture`; `None` where the parser
/// reports "Identifier expected".
pub fn parse_capture_target(raw: &str) -> (r: Option<KString>)
    ensures
        match r {
            Some(k) => capture_target_of(raw@) == Some(k@),
            None => capture_target_of(raw@) is None,
        },
{
    let s = crate::text::chars_of(raw);
    let n = s.len();
    let (from, to) = if n >= 2 && s[0] == '\'' && s[n - 1] == '\'' {
        (1, n - 1)
    } else if n >= 2 && s[0] == '"' && s[n - 1] == '"' {
        (1, n - 1)
    } else {
        (0, n)
    };
    let c = crate::strs::slice_chars(s.as_slice(), from, to);
    assert(c@ =~= unquoted(raw@));
    if c.len() == 0 {
        return None;
    }
    let mut i: usize = 0;
    while i < c.len()
        invariant
            i <= c@.len(),
            c@ == unquoted(raw@),
            forall|j: int| 0 <= j < i ==> capture_char(#[trigger] c@[j]),
        decreases c@.len() - i,
    {
        if !is_capture_char(c[i]) {
            assert(!capture_char(c@[i as int]));
            return None;
        }
        i = i + 1;
    }
    let text = crate::text::string_of(c.as_slice());
    Some(KString::from_string(text))
}

} // verus!
