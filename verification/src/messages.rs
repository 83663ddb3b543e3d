//! Error messages shown to template authors by a host embedding: host
//! exception messages, the placeholders rendered in place of failed
//! output, and the reading of `key=value` context lines.

use crate::strs::{
    lemma_trim_len,
    chars_start_with, contains, find, find_chars, is_ws, lines, lines_of, slice_chars,
    starts_with, str_contains, str_starts_with, trim, trim_chars, trim_start, trim_start_chars,
};
use crate::text::{
    chars_of, digits_value, is_digit, nat_text, push_chars, push_nat_text, push_str, str_eq,
    string_of,
};
use vstd::prelude::*;

verus! {

/// `"Liquid error: "`
pub open spec fn liquid_error_prefix() -> Seq<char> {
    seq!['L', 'i', 'q', 'u', 'i', 'd', ' ', 'e', 'r', 'r', 'o', 'r', ':', ' ']
}

/// `"Liquid syntax error: "`
pub open spec fn liquid_syntax_error_prefix() -> Seq<char> {
    seq![
        'L', 'i', 'q', 'u', 'i', 'd', ' ', 's', 'y', 'n', 't', 'a', 'x', ' ', 'e', 'r', 'r', 'o',
        'r', ':', ' ',
    ]
}

/// `"liquid: "`
pub open spec fn liquid_prefix_lower() -> Seq<char> {
    seq!['l', 'i', 'q', 'u', 'i', 'd', ':', ' ']
}

/// `"Liquid::"`
pub open spec fn liquid_namespace() -> Seq<char> {
    seq!['L', 'i', 'q', 'u', 'i', 'd', ':', ':']
}

fn lit_liquid_error() -> (r: &'static str)
    ensures
        r@ == liquid_error_prefix(),
{
    proof {
        reveal_strlit("Liquid error: ");
    }
    let r = "Liquid error: ";
    assert(r@ =~= liquid_error_prefix());
    r
}

fn lit_liquid_syntax_error() -> (r: &'static str)
    ensures
        r@ == liquid_syntax_error_prefix(),
{
    proof {
        reveal_strlit("Liquid syntax error: ");
    }
    let r = "Liquid syntax error: ";
    assert(r@ =~= liquid_syntax_error_prefix());
    r
}

fn lit_liquid_lower() -> (r: &'static str)
    ensures
        r@ == liquid_prefix_lower(),
{
    proof {
        reveal_strlit("liquid: ");
    }
    let r = "liquid: ";
    assert(r@ =~= liquid_prefix_lower());
    r
}

fn lit_liquid_namespace() -> (r: &'static str)
    ensures
        r@ == liquid_namespace(),
{
    proof {
        reveal_strlit("Liquid::");
    }
    let r = "Liquid::";
    assert(r@ =~= liquid_namespace());
    r
}

/// A host exception message as shown: for exceptions of the `Liquid::`
/// namespace, a `Liquid error: ` or `Liquid syntax error: ` prefix is
/// dropped.
pub open spec fn host_error_message(class_name: Seq<char>, message: Seq<char>) -> Seq<char> {
    if !starts_with(class_name, liquid_namespace()) {
        message
    } else if starts_with(message, liquid_error_prefix()) {
        message.skip(liquid_error_prefix().len() as int)
    } else if starts_with(message, liquid_syntax_error_prefix()) {
        message.skip(liquid_syntax_error_prefix().len() as int)
    } else {
        message
    }
}

/// `s` without its first `n` characters.
fn skip_str(s: &str, n: usize) -> (r: String)
    requires
        n <= s@.len(),
    ensures
        r@ == s@.skip(n as int),
{
    let c = chars_of(s);
    let v = slice_chars(c.as_slice(), n, c.len());
    assert(v@ =~= s@.skip(n as int));
    string_of(v.as_slice())
}

/// Drops the `Liquid error: ` / `Liquid syntax error: ` prefix of messages of
/// `Liquid::` exceptions.
pub fn normalize_host_error_message(class_name: &str, message: String) -> (r: String)
    ensures
        r@ == host_error_message(class_name@, message@),
{
    if !str_starts_with(class_name, lit_liquid_namespace()) {
        return message;
    }
    if str_starts_with(message.as_str(), lit_liquid_error()) {
        return skip_str(message.as_str(), 14);
    }
    if str_starts_with(message.as_str(), lit_liquid_syntax_error()) {
        return skip_str(message.as_str(), 21);
    }
    message
}

/// The same normalization, for exception messages recorded during a render.
pub fn normalize_exception_message(class_name: &str, message: String) -> (r: String)
    ensures
        r@ == host_error_message(class_name@, message@),
{
    if !str_starts_with(class_name, lit_liquid_namespace()) {
        return message;
    }
    if str_starts_with(message.as_str(), lit_liquid_syntax_error()) {
        return skip_str(message.as_str(), 21);
    }
    if str_starts_with(message.as_str(), lit_liquid_error()) {
        return skip_str(message.as_str(), 14);
    }
    message
}

/// `liquid: {message}`, the text of errors raised to the host.
pub fn liquid_message(message: &str) -> (r: String)
    ensures
        r@ == liquid_prefix_lower() + message@,
{
    let mut out: Vec<char> = Vec::new();
    push_str(&mut out, lit_liquid_lower());
    push_str(&mut out, message);
    string_of(out.as_slice())
}

/// The value after `key` on the first line that holds `key`, trimmed.
pub open spec fn first_line_value(ls: Seq<Seq<char>>, key: Seq<char>) -> Option<Seq<char>>
    decreases ls.len(),
{
    if ls.len() == 0 {
        None
    } else {
        match find(ls[0], key) {
            Some(i) => Some(trim(ls[0].skip(i + key.len()))),
            None => first_line_value(ls.drop_first(), key),
        }
    }
}

/// The value after `key` on the first line of `message` that holds it.
pub open spec fn context_value(message: Seq<char>, key: Seq<char>) -> Option<Seq<char>> {
    first_line_value(lines_of(message), key)
}

/// The views of lines.
pub open spec fn lines_model(ls: Seq<Vec<char>>) -> Seq<Seq<char>> {
    ls.map_values(|l: Vec<char>| l@)
}

/// The value after `key` on the first line of `message` that holds it,
/// trimmed.
pub fn extract_context_value(message: &str, key: &str) -> (r: Option<String>)
    ensures
        match r {
            Some(s) => context_value(message@, key@) == Some(s@),
            None => context_value(message@, key@) is None,
        },
{
    let ls = lines(message);
    let k = chars_of(key);
    let ghost lm = lines_model(ls@);
    let mut i: usize = 0;
    assert(lm.skip(0) =~= lm);
    while i < ls.len()
        invariant
            i <= ls@.len(),
            lm == lines_model(ls@),
            lm == lines_of(message@),
            k@ == key@,
            first_line_value(lm, key@) == first_line_value(lm.skip(i as int), key@),
        decreases ls@.len() - i,
    {
        let line = &ls[i];
        proof {
            let t = lm.skip(i as int);
            assert(t[0] == line@);
            assert(t.drop_first() =~= lm.skip(i + 1));
            crate::strs::lemma_find_bounds(line@, key@, 0);
        }
        match find_chars(line.as_slice(), k.as_slice(), 0) {
            Some(pos) => {
                let n = line.len();
                let m = k.len();
                assert(pos + m <= n);
                let rest = slice_chars(line.as_slice(), pos + m, n);
                assert(rest@ =~= line@.skip(pos + key@.len()));
                let v = trim_chars(rest.as_slice());
                return Some(string_of(v.as_slice()));
            },
            None => {},
        }
        i = i + 1;
    }
    None
}

/// The leading ASCII digits of `s`.
pub open spec fn leading_digits(s: Seq<char>) -> Seq<char>
    decreases s.len(),
{
    if s.len() > 0 && is_digit(s[0]) {
        seq![s[0]] + leading_digits(s.drop_first())
    } else {
        Seq::empty()
    }
}

/// The number after `-->` on a line, when it has one that fits a `usize`.
pub open spec fn line_number_of(line: Seq<char>) -> Option<int> {
    match find(line, seq!['-', '-', '>']) {
        None => None,
        Some(i) => {
            let d = leading_digits(trim_start(line.skip(i + 3)));
            if d.len() == 0 || digits_value(d) > usize::MAX {
                None
            } else {
                Some(digits_value(d))
            }
        },
    }
}

/// The number of the first line that has one.
pub open spec fn first_line_number(ls: Seq<Seq<char>>) -> Option<int>
    decreases ls.len(),
{
    if ls.len() == 0 {
        None
    } else {
        match line_number_of(ls[0]) {
            Some(n) => Some(n),
            None => first_line_number(ls.drop_first()),
        }
    }
}

/// The line number a message reports after `-->`.
pub open spec fn message_line_number(message: Seq<char>) -> Option<int> {
    first_line_number(lines_of(message))
}

/// `digits_value` of the leading digits of `s`, if it fits in a `usize`.
fn parse_leading_digits(s: &[char]) -> (r: Option<usize>)
    ensures
        match r {
            Some(n) => leading_digits(s@).len() > 0 && digits_value(leading_digits(s@)) == n,
            None => leading_digits(s@).len() == 0 || digits_value(leading_digits(s@)) > usize::MAX,
        },
{
    let mut k: usize = 0;
    while k < s.len() && '0' <= s[k] && s[k] <= '9'
        invariant
            k <= s@.len(),
            forall|j: int| 0 <= j < k ==> is_digit(s@[j]),
        decreases s@.len() - k,
    {
        k = k + 1;
    }
    proof {
        lemma_leading_digits(s@, k as int);
    }
    if k == 0 {
        return None;
    }
    let digits = slice_chars(s, 0, k);
    assert(digits@ =~= s@.take(k as int));
    parse_usize_digits(digits.as_slice())
}

proof fn lemma_leading_digits(s: Seq<char>, k: int)
    requires
        0 <= k <= s.len(),
        forall|j: int| 0 <= j < k ==> is_digit(s[j]),
        k == s.len() || !is_digit(s[k]),
    ensures
        leading_digits(s) == s.take(k),
    decreases k,
{
    if k > 0 {
        lemma_leading_digits(s.drop_first(), k - 1);
        assert(s.take(k) =~= seq![s[0]] + s.drop_first().take(k - 1));
    } else {
        assert(s.take(0) =~= Seq::<char>::empty());
    }
}

/// The value of a string of ASCII digits, if it fits in a `usize`.
fn parse_usize_digits(d: &[char]) -> (r: Option<usize>)
    requires
        d@.len() > 0,
        crate::text::all_digits(d@),
    ensures
        match r {
            Some(n) => digits_value(d@) == n,
            None => digits_value(d@) > usize::MAX,
        },
{
    let mut acc: usize = 0;
    let mut i: usize = 0;
    while i < d.len()
        invariant
            i <= d@.len(),
            crate::text::all_digits(d@),
            acc == digits_value(d@.take(i as int)),
        decreases d@.len() - i,
    {
        let digit = ((d[i] as u32) - 48) as usize;
        assert(d@.take(i + 1).drop_last() =~= d@.take(i as int));
        assert(is_digit(d@[i as int]));
        if acc > (usize::MAX - digit) / 10 {
            proof {
                crate::text::lemma_digits_value_prefix(d@, i + 1);
                assert(digits_value(d@.take(i + 1)) == acc * 10 + digit);
            }
            return None;
        }
        acc = acc * 10 + digit;
        i = i + 1;
    }
    assert(d@.take(d@.len() as int) =~= d@);
    Some(acc)
}

/// The number a message reports after `-->`: on the first line where digits
/// follow it (spaces before them allowed) and fit a `usize`.
pub fn extract_line_number(message: &str) -> (r: Option<usize>)
    ensures
        match r {
            Some(n) => message_line_number(message@) == Some(n as int),
            None => message_line_number(message@) is None,
        },
{
    let ls = lines(message);
    let arrow: [char; 3] = ['-', '-', '>'];
    assert(arrow@ =~= seq!['-', '-', '>']);
    let ghost lm = lines_model(ls@);
    let mut i: usize = 0;
    assert(lm.skip(0) =~= lm);
    while i < ls.len()
        invariant
            i <= ls@.len(),
            lm == lines_model(ls@),
            lm == lines_of(message@),
            arrow@ == seq!['-', '-', '>'],
            first_line_number(lm) == first_line_number(lm.skip(i as int)),
        decreases ls@.len() - i,
    {
        let line = &ls[i];
        proof {
            let t = lm.skip(i as int);
            assert(t[0] == line@);
            assert(t.drop_first() =~= lm.skip(i + 1));
            crate::strs::lemma_find_bounds(line@, seq!['-', '-', '>'], 0);
        }
        match find_chars(line.as_slice(), arrow.as_slice(), 0) {
            Some(pos) => {
                let rest = slice_chars(line.as_slice(), pos + 3, line.len());
                assert(rest@ =~= line@.skip(pos + 3));
                let t = trim_start_chars(rest.as_slice());
                match parse_leading_digits(t.as_slice()) {
                    Some(n) => {
                        return Some(n);
                    },
                    None => {},
                }
            },
            None => {},
        }
        i = i + 1;
    }
    None
}

/// Whether a render failed on the memory limit.
pub open spec fn memory_limit_error(message: Seq<char>) -> bool {
    contains(message, "Memory limits exceeded"@)
}

/// Whether a message names a memory-limit failure.
pub fn is_memory_limit_error(message: &str) -> (r: bool)
    ensures
        r == memory_limit_error(message@),
{
    str_contains(message, "Memory limits exceeded")
}

/// Whether the output rendered before an error is kept: for unknown
/// filters, unknown variables and undefined drop methods.
pub open spec fn keeps_partial_output(message: Seq<char>) -> bool {
    contains(message, "Unknown filter"@) || contains(message, "Unknown variable"@) || contains(
        message,
        "Undefined drop method"@,
    )
}

/// Whether the output rendered before this error is kept.
pub fn preserve_partial_output(message: &str) -> (r: bool)
    ensures
        r == keeps_partial_output(message@),
{
    str_contains(message, "Unknown filter") || str_contains(message, "Unknown variable")
        || str_contains(message, "Undefined drop method")
}

/// What precedes the first `"\nfrom:"` of `m` (a host backtrace), or all
/// of `m`.
pub open spec fn before_backtrace(m: Seq<char>) -> Seq<char> {
    match find(m, "\nfrom:"@) {
        Some(i) => m.take(i),
        None => m,
    }
}

/// `m` with `liquid: `, `Liquid error: ` and `Liquid syntax error: `
/// prefixes stripped as long as one leads, trimming after each.
pub open spec fn strip_prefixes(m: Seq<char>) -> Seq<char>
    decreases m.len(),
{
    if starts_with(m, liquid_prefix_lower()) {
        proof {
            lemma_trim_len(m.skip(8));
        }
        strip_prefixes(trim(m.skip(8)))
    } else if starts_with(m, liquid_error_prefix()) {
        proof {
            lemma_trim_len(m.skip(14));
        }
        strip_prefixes(trim(m.skip(14)))
    } else if starts_with(m, liquid_syntax_error_prefix()) {
        proof {
            lemma_trim_len(m.skip(21));
        }
        strip_prefixes(trim(m.skip(21)))
    } else {
        m
    }
}

/// The first line whose text, leading white space aside, starts with `=`.
pub open spec fn first_assignment_line(ls: Seq<Seq<char>>) -> Option<Seq<char>>
    decreases ls.len(),
{
    if ls.len() == 0 {
        None
    } else if starts_with(trim_start(ls[0]), seq!['=']) {
        Some(ls[0])
    } else {
        first_assignment_line(ls.drop_first())
    }
}

/// What follows the first `=` of a line, trimmed (the trimmed line if it
/// has none).
pub open spec fn assigned_text(line: Seq<char>) -> Seq<char> {
    match find(line, seq!['=']) {
        Some(i) => trim(line.skip(i + 1)),
        None => trim(line),
    }
}

/// The message shown for a parse or render error.
pub open spec fn normalized_error(m: Seq<char>) -> Seq<char> {
    if contains(m, "Unknown tag."@) {
        match context_value(m, "requested="@) {
            Some(r) => if r == "else"@ {
                "Unexpected outer 'else' tag"@
            } else {
                "Unknown tag '"@ + r + "'"@
            },
            None => "Unknown tag"@,
        }
    } else if contains(m, "expected Identifier or Value"@) {
        "is not a valid expression"@
    } else {
        match first_assignment_line(lines_of(m)) {
            Some(line) => assigned_text(line),
            None => strip_prefixes(trim(before_backtrace(m))),
        }
    }
}

/// Strips the `liquid: `, `Liquid error: ` and `Liquid syntax error: `
/// prefixes of a trimmed message.
fn strip_liquid_prefixes(m: &[char]) -> (r: Vec<char>)
    ensures
        r@ == strip_prefixes(m@),
    decreases m@.len(),
{
    let lower = chars_of(lit_liquid_lower());
    let error = chars_of(lit_liquid_error());
    let syntax = chars_of(lit_liquid_syntax_error());
    if chars_start_with(m, lower.as_slice()) {
        let rest = slice_chars(m, 8, m.len());
        assert(rest@ =~= m@.skip(8));
        let t = trim_chars(rest.as_slice());
        proof {
            lemma_trim_len(m@.skip(8));
        }
        return strip_liquid_prefixes(t.as_slice());
    }
    if chars_start_with(m, error.as_slice()) {
        let rest = slice_chars(m, 14, m.len());
        assert(rest@ =~= m@.skip(14));
        let t = trim_chars(rest.as_slice());
        proof {
            lemma_trim_len(m@.skip(14));
        }
        return strip_liquid_prefixes(t.as_slice());
    }
    if chars_start_with(m, syntax.as_slice()) {
        let rest = slice_chars(m, 21, m.len());
        assert(rest@ =~= m@.skip(21));
        let t = trim_chars(rest.as_slice());
        proof {
            lemma_trim_len(m@.skip(21));
        }
        return strip_liquid_prefixes(t.as_slice());
    }
    slice_chars(m, 0, m.len())
}

/// The text after the first `=` of a line, trimmed.
fn assigned_text_of(line: &[char]) -> (r: Vec<char>)
    ensures
        r@ == assigned_text(line@),
{
    let eq: [char; 1] = ['='];
    assert(eq@ =~= seq!['=']);
    proof {
        crate::strs::lemma_find_bounds(line@, seq!['='], 0);
    }
    match find_chars(line, eq.as_slice(), 0) {
        Some(i) => {
            let n = line.len();
            assert(i + 1 <= n);
            let rest = slice_chars(line, i + 1, n);
            assert(rest@ =~= line@.skip(i + 1));
            trim_chars(rest.as_slice())
        },
        None => trim_chars(line),
    }
}

/// The first line of `message` that starts, white space aside, with `=`.
fn find_assignment_line(ls: &Vec<Vec<char>>) -> (r: Option<usize>)
    ensures
        match r {
            Some(i) => i < ls@.len() && first_assignment_line(lines_model(ls@)) == Some(
                ls@[i as int]@,
            ),
            None => first_assignment_line(lines_model(ls@)) is None,
        },
{
    let ghost lm = lines_model(ls@);
    let eq: [char; 1] = ['='];
    assert(eq@ =~= seq!['=']);
    let mut i: usize = 0;
    assert(lm.skip(0) =~= lm);
    while i < ls.len()
        invariant
            i <= ls@.len(),
            lm == lines_model(ls@),
            eq@ == seq!['='],
            first_assignment_line(lm) == first_assignment_line(lm.skip(i as int)),
        decreases ls@.len() - i,
    {
        let line = &ls[i];
        proof {
            let t = lm.skip(i as int);
            assert(t[0] == line@);
            assert(t.drop_first() =~= lm.skip(i + 1));
        }
        let t = trim_start_chars(line.as_slice());
        if chars_start_with(t.as_slice(), eq.as_slice()) {
            return Some(i);
        }
        i = i + 1;
    }
    assert(lm.skip(i as int).len() == 0);
    None
}

/// The message shown for a parse or render error.
pub fn normalize_error_message(message: &str) -> (r: String)
    ensures
        r@ == normalized_error(message@),
{
    if str_contains(message, "Unknown tag.") {
        return match extract_context_value(message, "requested=") {
            Some(requested) => {
                if str_eq(requested.as_str(), "else") {
                    "Unexpected outer 'else' tag".to_string()
                } else {
                    let mut out: Vec<char> = Vec::new();
                    push_str(&mut out, "Unknown tag '");
                    push_str(&mut out, requested.as_str());
                    push_str(&mut out, "'");
                    string_of(out.as_slice())
                }
            },
            None => "Unknown tag".to_string(),
        };
    }
    if str_contains(message, "expected Identifier or Value") {
        return "is not a valid expression".to_string();
    }
    let ls = lines(message);
    match find_assignment_line(&ls) {
        Some(i) => {
            let v = assigned_text_of(ls[i].as_slice());
            return string_of(v.as_slice());
        },
        None => {},
    }
    let c = chars_of(message);
    let from: [char; 6] = ['\n', 'f', 'r', 'o', 'm', ':'];
    proof {
        reveal_strlit("\nfrom:");
        crate::strs::lemma_find_bounds(c@, "\nfrom:"@, 0);
    }
    assert(from@ =~= "\nfrom:"@);
    let head = match find_chars(c.as_slice(), from.as_slice(), 0) {
        Some(k) => slice_chars(c.as_slice(), 0, k),
        None => slice_chars(c.as_slice(), 0, c.len()),
    };
    assert(head@ =~= before_backtrace(message@));
    let t = trim_chars(head.as_slice());
    let v = strip_liquid_prefixes(t.as_slice());
    string_of(v.as_slice())
}

/// An optional line number as an integer.
pub open spec fn line_model(o: Option<usize>) -> Option<int> {
    match o {
        Some(n) => Some(n as int),
        None => None,
    }
}

/// The message of a render error in the host's wording: unknown filters,
/// divisions by zero, undefined drop methods and unknown variables by name,
/// anything else normalized.
pub open spec fn error_summary(m: Seq<char>) -> Seq<char> {
    if contains(m, "Unknown filter"@) {
        match context_value(m, "requested filter="@) {
            Some(r) => "undefined filter "@ + r,
            None => "undefined filter"@,
        }
    } else if contains(m, "Can't divide by zero"@) {
        "divided by 0"@
    } else if contains(m, "Undefined drop method"@) {
        match context_value(m, "requested variable="@) {
            Some(r) => "undefined drop method "@ + r,
            None => "undefined drop method"@,
        }
    } else if contains(m, "Unknown variable"@) {
        match context_value(m, "requested variable="@) {
            Some(r) => "undefined variable "@ + r,
            None => "undefined variable"@,
        }
    } else {
        normalized_error(m)
    }
}

/// `Liquid error (line N): message`, the line part only when known.
pub open spec fn error_line_text(message: Seq<char>, line: Option<int>) -> Seq<char> {
    "Liquid error"@ + match line {
        Some(n) => " (line "@ + nat_text(n as nat) + ")"@,
        None => Seq::empty(),
    } + ": "@ + message
}

/// What a failed render shows by default.
pub open spec fn default_error_output(m: Seq<char>) -> Seq<char> {
    error_line_text(error_summary(m), message_line_number(m))
}

/// What a non-strict render shows for a failure.
pub open spec fn non_strict_output(m: Seq<char>) -> Seq<char> {
    if memory_limit_error(m) {
        "Liquid error: Memory limits exceeded"@
    } else if starts_with(m, liquid_error_prefix()) || starts_with(m, liquid_syntax_error_prefix()) {
        m
    } else {
        default_error_output(m)
    }
}

/// A render error as the host shows it: its message and, when known, its
/// line.
pub struct RenderErrorMetadata {
    pub message: String,
    pub line_number: Option<usize>,
}

/// `prefix` followed by the value found for `key` on a line of `message`,
/// or `bare` when no line holds it.
fn named_message(message: &str, key: &str, prefix: &str, bare: &str) -> (r: String)
    ensures
        r@ == match context_value(message@, key@) {
            Some(v) => prefix@ + v,
            None => bare@,
        },
{
    match extract_context_value(message, key) {
        Some(v) => {
            let mut out: Vec<char> = Vec::new();
            push_str(&mut out, prefix);
            push_str(&mut out, v.as_str());
            string_of(out.as_slice())
        },
        None => bare.to_string(),
    }
}

impl RenderErrorMetadata {
    /// Reads a raw error message.
    pub fn from_raw(message: &str) -> (r: Self)
        ensures
            r.message@ == error_summary(message@),
            line_model(r.line_number) == message_line_number(message@),
    {
        let line_number = extract_line_number(message);
        if str_contains(message, "Unknown filter") {
            return Self {
                message: named_message(
                    message,
                    "requested filter=",
                    "undefined filter ",
                    "undefined filter",
                ),
                line_number,
            };
        }
        if str_contains(message, "Can't divide by zero") {
            return Self { message: "divided by 0".to_string(), line_number };
        }
        if str_contains(message, "Undefined drop method") {
            return Self {
                message: named_message(
                    message,
                    "requested variable=",
                    "undefined drop method ",
                    "undefined drop method",
                ),
                line_number,
            };
        }
        if str_contains(message, "Unknown variable") {
            return Self {
                message: named_message(
                    message,
                    "requested variable=",
                    "undefined variable ",
                    "undefined variable",
                ),
                line_number,
            };
        }
        Self { message: normalize_error_message(message), line_number }
    }

    /// `Liquid error (line N): message`.
    pub fn render(&self) -> (r: String)
        ensures
            r@ == error_line_text(self.message@, line_model(self.line_number)),
    {
        let mut out: Vec<char> = Vec::new();
        push_str(&mut out, "Liquid error");
        match self.line_number {
            Some(n) => {
                push_str(&mut out, " (line ");
                push_nat_text(&mut out, n as u64);
                push_str(&mut out, ")");
            },
            None => {},
        }
        push_str(&mut out, ": ");
        push_str(&mut out, self.message.as_str());
        let r = string_of(out.as_slice());
        assert(r@ =~= error_line_text(self.message@, line_model(self.line_number)));
        r
    }
}

/// What a failed render shows by default.
pub fn render_default_error_output(message: &str) -> (r: String)
    ensures
        r@ == default_error_output(message@),
{
    RenderErrorMetadata::from_raw(message).render()
}

/// What a non-strict render shows for a failure.
pub fn non_strict_error_output(message: &str) -> (r: String)
    ensures
        r@ == non_strict_output(message@),
{
    if is_memory_limit_error(message) {
        "Liquid error: Memory limits exceeded".to_string()
    } else if str_starts_with(message, lit_liquid_error()) || str_starts_with(
        message,
        lit_liquid_syntax_error(),
    ) {
        message.to_string()
    } else {
        render_default_error_output(message)
    }
}

/// An error recorded while rendering: a bare message, or a host exception
/// with its class.
#[derive(Clone, Debug, PartialEq, Eq)]
pub enum TrackedRenderError {
    Message(String),
    Exception { class_name: String, message: String },
}

/// The contents of a recorded error.
pub enum TrackedErrorView {
    Message(Seq<char>),
    Exception(Seq<char>, Seq<char>),
}

impl View for TrackedRenderError {
    type V = TrackedErrorView;

    open spec fn view(&self) -> TrackedErrorView {
        match self {
            TrackedRenderError::Message(m) => TrackedErrorView::Message(m@),
            TrackedRenderError::Exception { class_name, message } => TrackedErrorView::Exception(
                class_name@,
                message@,
            ),
        }
    }
}

impl TrackedRenderError {
    /// Whether two recorded errors are the same error.
    pub fn same_as(&self, other: &Self) -> (r: bool)
        ensures
            r == (self@ == other@),
    {
        match self {
            TrackedRenderError::Message(a) => match other {
                TrackedRenderError::Message(b) => str_eq(a.as_str(), b.as_str()),
                _ => false,
            },
            TrackedRenderError::Exception { class_name: ca, message: ma } => match other {
                TrackedRenderError::Exception { class_name: cb, message: mb } => str_eq(
                    ca.as_str(),
                    cb.as_str(),
                ) && str_eq(ma.as_str(), mb.as_str()),
                _ => false,
            },
        }
    }

    /// A copy of this error.
    pub fn duplicate(&self) -> (r: Self)
        ensures
            r@ == self@,
    {
        match self {
            TrackedRenderError::Message(m) => TrackedRenderError::Message(m.clone()),
            TrackedRenderError::Exception { class_name, message } => TrackedRenderError::Exception {
                class_name: class_name.clone(),
                message: message.clone(),
            },
        }
    }
}

/// The placeholder rendered where a recorded error occurred.
pub open spec fn placeholder_text(e: TrackedErrorView) -> Seq<char> {
    match e {
        TrackedErrorView::Message(m) => if starts_with(m, liquid_error_prefix()) || starts_with(
            m,
            liquid_syntax_error_prefix(),
        ) {
            m
        } else {
            liquid_error_prefix() + m
        },
        TrackedErrorView::Exception(class_name, m) => if class_name == "Liquid::SyntaxError"@ {
            liquid_syntax_error_prefix() + m
        } else {
            liquid_error_prefix() + m
        },
    }
}

/// The placeholder rendered where a recorded error occurred.
pub fn render_error_placeholder(error: &TrackedRenderError) -> (r: String)
    ensures
        r@ == placeholder_text(error@),
{
    match error {
        TrackedRenderError::Message(message) => {
            if str_starts_with(message.as_str(), lit_liquid_error()) || str_starts_with(
                message.as_str(),
                lit_liquid_syntax_error(),
            ) {
                message.clone()
            } else {
                let mut out: Vec<char> = Vec::new();
                push_str(&mut out, lit_liquid_error());
                push_str(&mut out, message.as_str());
                string_of(out.as_slice())
            }
        },
        TrackedRenderError::Exception { class_name, message } => {
            let mut out: Vec<char> = Vec::new();
            if str_eq(class_name.as_str(), "Liquid::SyntaxError") {
                push_str(&mut out, lit_liquid_syntax_error());
            } else {
                push_str(&mut out, lit_liquid_error());
            }
            push_str(&mut out, message.as_str());
            string_of(out.as_slice())
        },
    }
}

/// The views of recorded errors.
pub open spec fn errors_model(v: Seq<TrackedRenderError>) -> Seq<TrackedErrorView> {
    v.map_values(|e: TrackedRenderError| e@)
}

/// `s` with every element after its first occurrence removed.
pub open spec fn first_occurrences<A>(s: Seq<A>) -> Seq<A>
    decreases s.len(),
{
    if s.len() == 0 {
        Seq::empty()
    } else {
        let d = first_occurrences(s.drop_last());
        if d.contains(s.last()) {
            d
        } else {
            d.push(s.last())
        }
    }
}

/// Whether `v` holds an error equal to `e`.
fn holds_error(v: &Vec<TrackedRenderError>, e: &TrackedRenderError) -> (r: bool)
    ensures
        r == errors_model(v@).contains(e@),
{
    let mut i: usize = 0;
    while i < v.len()
        invariant
            i <= v@.len(),
            forall|j: int| 0 <= j < i ==> v@[j]@ != e@,
        decreases v@.len() - i,
    {
        if v[i].same_as(e) {
            assert(errors_model(v@)[i as int] == e@);
            return true;
        }
        i = i + 1;
    }
    proof {
        if errors_model(v@).contains(e@) {
            let j = choose|j: int| 0 <= j < errors_model(v@).len() && errors_model(v@)[j] == e@;
            assert(v@[j]@ == e@);
        }
    }
    false
}

/// The recorded errors with repeats dropped, each kept where it first
/// occurred.
pub fn dedupe_tracked_errors(tracked_errors: Vec<TrackedRenderError>) -> (r: Vec<
    TrackedRenderError,
>)
    ensures
        errors_model(r@) == first_occurrences(errors_model(tracked_errors@)),
{
    let ghost src = errors_model(tracked_errors@);
    let mut unique: Vec<TrackedRenderError> = Vec::new();
    let mut i: usize = 0;
    while i < tracked_errors.len()
        invariant
            i <= tracked_errors@.len(),
            src == errors_model(tracked_errors@),
            errors_model(unique@) == first_occurrences(src.take(i as int)),
        decreases tracked_errors@.len() - i,
    {
        let e = &tracked_errors[i];
        proof {
            assert(src.take(i + 1).drop_last() =~= src.take(i as int));
            assert(src.take(i + 1).last() == e@);
        }
        if !holds_error(&unique, e) {
            let ghost before = unique@;
            let copy = e.duplicate();
            unique.push(copy);
            proof {
                assert(unique@ == before.push(copy));
                assert(errors_model(unique@) =~= errors_model(before).push(e@));
            }
        }
        i = i + 1;
    }
    assert(src.take(i as int) =~= src);
    unique
}

proof fn lemma_first_occurrences_contains<A>(s: Seq<A>)
    ensures
        forall|x: A| #[trigger] first_occurrences(s).contains(x) <==> s.contains(x),
        first_occurrences(s).no_duplicates(),
    decreases s.len(),
{
    if s.len() > 0 {
        let d = first_occurrences(s.drop_last());
        lemma_first_occurrences_contains(s.drop_last());
        assert forall|x: A| #[trigger] first_occurrences(s).contains(x) <==> s.contains(x) by {
            if s.contains(x) {
                let j = choose|j: int| 0 <= j < s.len() && s[j] == x;
                if j < s.len() - 1 {
                    assert(s.drop_last()[j] == x);
                    assert(d.contains(x));
                    if !d.contains(s.last()) {
                        let k = choose|k: int| 0 <= k < d.len() && d[k] == x;
                        assert(d.push(s.last())[k] == x);
                    }
                } else if !d.contains(s.last()) {
                    assert(d.push(s.last())[d.len() as int] == x);
                }
            }
            if first_occurrences(s).contains(x) {
                if d.contains(x) {
                    let k = choose|k: int| 0 <= k < s.drop_last().len() && s.drop_last()[k] == x;
                    assert(s[k] == x);
                } else {
                    let k = choose|k: int|
                        0 <= k < first_occurrences(s).len() && first_occurrences(s)[k] == x;
                    assert(x == s.last());
                    assert(s[s.len() - 1] == x);
                }
            }
        }
    }
}

/// Dropping repeated errors leaves no error twice.
pub proof fn law_dedupe_no_repeats(errors: Seq<TrackedErrorView>)
    ensures
        first_occurrences(errors).no_duplicates(),
{
    lemma_first_occurrences_contains(errors);
}

/// Dropping repeated errors loses no error and adds none.
pub proof fn law_dedupe_keeps_every_error(errors: Seq<TrackedErrorView>, e: TrackedErrorView)
    ensures
        first_occurrences(errors).contains(e) <==> errors.contains(e),
{
    lemma_first_occurrences_contains(errors);
}

proof fn lemma_first_occurrences_distinct<A>(s: Seq<A>)
    requires
        s.no_duplicates(),
    ensures
        first_occurrences(s) == s,
    decreases s.len(),
{
    if s.len() > 0 {
        let t = s.drop_last();
        assert(t.no_duplicates());
        lemma_first_occurrences_distinct(t);
        assert(!t.contains(s.last()));
        assert(t.push(s.last()) =~= s);
    }
}

/// Dropping repeats a second time changes nothing.
pub proof fn law_dedupe_idempotent(errors: Seq<TrackedErrorView>)
    ensures
        first_occurrences(first_occurrences(errors)) == first_occurrences(errors),
{
    lemma_first_occurrences_contains(errors);
    lemma_first_occurrences_distinct(first_occurrences(errors));
}

} // verus!
