//! Ruby-flavoured `strftime` formatting.
//!
//! A format string is read as literal characters and `%` directives. A
//! directive is `%`, flags (`-` `_` `0` `^` `#`), an optional width, an
//! ignored `E`/`O` modifier and a conversion character. Its text is a
//! function of the directive and of the calendar fields of the date-time.

use crate::datetime::{parts_model, parts_of, DateTimeParts};
use crate::text::{
    all_digits, ascii_upper, chars_of, digit_char, digits_value, int_text, is_digit, nat_text, pow10,
    push_nat_text, push_repeat, push_right_aligned, push_zero_padded, repeat, right_align,
    string_of, upper_from, zero_pad,
};
use vstd::prelude::*;

verus! {

#[verifier::external_type_specification]
#[verifier::external_body]
pub struct ExParseIntError(std::num::ParseIntError);

/// How a formatting directive failed.
#[derive(Debug, PartialEq, Eq)]
pub enum DateFormatError {
    /// A `%` was not followed by any format specifier.
    NoFormatSpecifier,
    /// The pad width could not be parsed.
    InvalidWidth(std::num::ParseIntError),
    /// An `E` or `O` modifier was not followed by a format specifier.
    NoFormatSpecifierAfterModifier,
}

/// The kind of a [`DateFormatError`].
#[derive(PartialEq, Eq, Structural, Clone, Copy, Debug)]
pub enum FormatErrorKind {
    /// See [`DateFormatError::NoFormatSpecifier`].
    NoFormatSpecifier,
    /// See [`DateFormatError::InvalidWidth`].
    InvalidWidth,
    /// See [`DateFormatError::NoFormatSpecifierAfterModifier`].
    NoFormatSpecifierAfterModifier,
}

/// What the `Display` of a `ParseIntError` writes.
pub uninterp spec fn int_error_text(e: std::num::ParseIntError) -> Seq<char>;

/// `Display` of a `ParseIntError`: its description.
#[verifier::external_body]
fn parse_int_error_text(e: &std::num::ParseIntError) -> (r: String)
    ensures
        r@ == int_error_text(*e),
{
    format!("{}", e)
}

/// The text of a formatting error.
pub open spec fn format_error_text(e: DateFormatError) -> Seq<char> {
    match e {
        DateFormatError::NoFormatSpecifier => "no format specifier following '%'"@,
        DateFormatError::NoFormatSpecifierAfterModifier =>
            "no format specifier following '%' with a format modifier"@,
        DateFormatError::InvalidWidth(err) => "failed to parse padding width: "@ + int_error_text(
            err,
        ),
    }
}

impl DateFormatError {
    /// The text the error displays.
    pub fn to_string(&self) -> (r: String)
        ensures
            r@ == format_error_text(*self),
    {
        match self {
            DateFormatError::NoFormatSpecifier => "no format specifier following '%'".to_string(),
            DateFormatError::NoFormatSpecifierAfterModifier =>
                "no format specifier following '%' with a format modifier".to_string(),
            DateFormatError::InvalidWidth(err) => {
                let mut out: Vec<char> = Vec::new();
                crate::text::push_str(&mut out, "failed to parse padding width: ");
                let t = parse_int_error_text(err);
                crate::text::push_str(&mut out, t.as_str());
                string_of(out.as_slice())
            },
        }
    }

    /// The error this one stems from: the width's parse error.
    pub fn source(&self) -> (r: Option<&std::num::ParseIntError>)
        ensures
            match *self {
                DateFormatError::InvalidWidth(err) => r == Some(&err),
                _ => r is None,
            },
    {
        match self {
            DateFormatError::InvalidWidth(err) => Some(err),
            _ => None,
        }
    }

    /// The kind of this error.
    pub open spec fn kind(&self) -> FormatErrorKind {
        match self {
            DateFormatError::NoFormatSpecifier => FormatErrorKind::NoFormatSpecifier,
            DateFormatError::InvalidWidth(_) => FormatErrorKind::InvalidWidth,
            DateFormatError::NoFormatSpecifierAfterModifier => FormatErrorKind::NoFormatSpecifierAfterModifier,
        }
    }
}

/// `str::parse::<usize>` on a non-empty string of ASCII digits: the standard
/// library documents that it yields the decimal value, and fails only when
/// that value does not fit in a `usize`.
#[verifier::external_body]
fn parse_width(digits: &str) -> (r: Result<usize, std::num::ParseIntError>)
    requires
        digits@.len() > 0,
        all_digits(digits@),
    ensures
        match r {
            Ok(n) => n as int == digits_value(digits@),
            Err(_) => digits_value(digits@) > usize::MAX,
        },
{
    digits.parse::<usize>()
}

/// Padding character choice.
#[derive(PartialEq, Eq, Structural, Clone, Copy, Debug)]
pub enum PaddingStyle {
    /// `0` for numbers, spaces for text.
    Default,
    /// `0` (the `0` flag).
    Zero,
    /// Spaces (the `_` flag).
    Space,
}

/// Letter case of textual output.
#[derive(PartialEq, Eq, Structural, Clone, Copy, Debug)]
pub enum Casing {
    /// As written.
    Default,
    /// Upper case (the `^` flag).
    Upper,
    /// Changed case (the `#` flag); letters come out upper case.
    Change,
}

/// A scanned directive, positions as integers.
pub struct DirectiveModel {
    pub use_padding: bool,
    pub style: PaddingStyle,
    pub casing: Casing,
    pub width: Option<int>,
    pub spec: char,
    pub with_seconds: bool,
    pub colon_failed: bool,
    pub start: int,
    pub last: int,
}

/// A scanned directive.
#[derive(Debug)]
pub struct Directive {
    /// Padding is on (no `-` flag).
    pub use_padding: bool,
    /// Padding character choice.
    pub style: PaddingStyle,
    /// Letter case.
    pub casing: Casing,
    /// Explicit width.
    pub width: Option<usize>,
    /// Conversion character.
    pub spec: char,
    /// `%::z`: the offset with its seconds.
    pub with_seconds: bool,
    /// A `:` that did not lead to `z`.
    pub colon_failed: bool,
    /// Position of the `%`.
    pub start: usize,
    /// Position of the last character that belongs to the directive.
    pub last: usize,
}

impl View for Directive {
    type V = DirectiveModel;

    open spec fn view(&self) -> DirectiveModel {
        DirectiveModel {
            use_padding: self.use_padding,
            style: self.style,
            casing: self.casing,
            width: match self.width {
                Some(w) => Some(w as int),
                None => None,
            },
            spec: self.spec,
            with_seconds: self.with_seconds,
            colon_failed: self.colon_failed,
            start: self.start as int,
            last: self.last as int,
        }
    }
}

/// Flags from position `i` on: the position of the first other character
/// and the settings the flags give, or `None` when the text ends first.
pub open spec fn scan_flags(fmt: Seq<char>, i: int, up: bool, st: PaddingStyle, ca: Casing) -> Option<
    (int, bool, PaddingStyle, Casing),
>
    decreases fmt.len() - i,
{
    if i < 0 || i >= fmt.len() {
        None
    } else if fmt[i] == '-' {
        scan_flags(fmt, i + 1, false, st, ca)
    } else if fmt[i] == '_' {
        scan_flags(fmt, i + 1, up, PaddingStyle::Space, ca)
    } else if fmt[i] == '0' {
        scan_flags(fmt, i + 1, up, PaddingStyle::Zero, ca)
    } else if fmt[i] == '^' {
        scan_flags(fmt, i + 1, up, st, Casing::Upper)
    } else if fmt[i] == '#' {
        scan_flags(fmt, i + 1, up, st, Casing::Change)
    } else {
        Some((i, up, st, ca))
    }
}

/// The first position at or after `i` that does not hold a digit.
pub open spec fn digits_end(fmt: Seq<char>, i: int) -> int
    decreases fmt.len() - i,
{
    if 0 <= i < fmt.len() && is_digit(fmt[i]) {
        digits_end(fmt, i + 1)
    } else {
        i
    }
}

/// The directive whose conversion character is at `s`.
pub open spec fn directive_at(
    fmt: Seq<char>,
    p: int,
    up: bool,
    st: PaddingStyle,
    ca: Casing,
    width: Option<int>,
    s: int,
) -> DirectiveModel {
    let base = DirectiveModel {
        use_padding: up,
        style: st,
        casing: ca,
        width,
        spec: fmt[s],
        with_seconds: false,
        colon_failed: false,
        start: p,
        last: s,
    };
    if fmt[s] != ':' {
        base
    } else if s + 1 >= fmt.len() {
        DirectiveModel { colon_failed: true, ..base }
    } else if fmt[s + 1] == 'z' {
        DirectiveModel { last: s + 1, ..base }
    } else if fmt[s + 1] == ':' {
        if s + 2 >= fmt.len() {
            DirectiveModel { colon_failed: true, last: s + 1, ..base }
        } else if fmt[s + 2] == 'z' {
            DirectiveModel { with_seconds: true, last: s + 2, ..base }
        } else {
            DirectiveModel { colon_failed: true, last: s + 2, ..base }
        }
    } else {
        DirectiveModel { colon_failed: true, last: s + 1, ..base }
    }
}

/// Scans the directive that starts with the `%` at `p`.
pub open spec fn scan_directive(fmt: Seq<char>, p: int) -> Result<DirectiveModel, FormatErrorKind> {
    match scan_flags(fmt, p + 1, true, PaddingStyle::Default, Casing::Default) {
        None => Err(FormatErrorKind::NoFormatSpecifier),
        Some((j, up, st, ca)) => {
            let has_width = is_digit(fmt[j]);
            let k = if has_width { digits_end(fmt, j) } else { j };
            let w = digits_value(fmt.subrange(j, k));
            if k >= fmt.len() {
                Err(FormatErrorKind::NoFormatSpecifier)
            } else if has_width && w > usize::MAX {
                Err(FormatErrorKind::InvalidWidth)
            } else {
                let width = if has_width { Some(w) } else { None };
                let modifier = fmt[k] == 'E' || fmt[k] == 'O';
                if modifier && k + 1 >= fmt.len() {
                    Err(FormatErrorKind::NoFormatSpecifierAfterModifier)
                } else {
                    let s = if modifier { k + 1 } else { k };
                    Ok(directive_at(fmt, p, up, st, ca, width, s))
                }
            }
        },
    }
}

proof fn lemma_scan_flags(fmt: Seq<char>, i: int, up: bool, st: PaddingStyle, ca: Casing)
    requires
        0 <= i,
    ensures
        scan_flags(fmt, i, up, st, ca) matches Some(t) ==> i <= t.0 < fmt.len(),
    decreases fmt.len() - i,
{
    if 0 <= i < fmt.len() {
        lemma_scan_flags(fmt, i + 1, false, st, ca);
        lemma_scan_flags(fmt, i + 1, up, PaddingStyle::Space, ca);
        lemma_scan_flags(fmt, i + 1, up, PaddingStyle::Zero, ca);
        lemma_scan_flags(fmt, i + 1, up, st, Casing::Upper);
        lemma_scan_flags(fmt, i + 1, up, st, Casing::Change);
    }
}

proof fn lemma_digits_end(fmt: Seq<char>, i: int)
    requires
        0 <= i <= fmt.len(),
    ensures
        i <= digits_end(fmt, i) <= fmt.len(),
        all_digits(fmt.subrange(i, digits_end(fmt, i))),
    decreases fmt.len() - i,
{
    if i < fmt.len() && is_digit(fmt[i]) {
        lemma_digits_end(fmt, i + 1);
        let e = digits_end(fmt, i);
        assert(fmt.subrange(i, e) =~= seq![fmt[i]] + fmt.subrange(i + 1, e));
    }
}

/// A scanned directive lies after its `%` and inside the text.
pub proof fn lemma_scan_directive(fmt: Seq<char>, p: int)
    requires
        0 <= p < fmt.len(),
    ensures
        scan_directive(fmt, p) matches Ok(d) ==> d.start == p && p < d.last < fmt.len(),
{
    lemma_scan_flags(fmt, p + 1, true, PaddingStyle::Default, Casing::Default);
    if let Some((j, up, st, ca)) = scan_flags(
        fmt,
        p + 1,
        true,
        PaddingStyle::Default,
        Casing::Default,
    ) {
        lemma_digits_end(fmt, j);
    }
}

/// Conversion characters with a meaning.
pub open spec fn known_spec(c: char) -> bool {
    c == 'Y' || c == 'C' || c == 'y' || c == 'm' || c == 'd' || c == 'e' || c == 'w' || c == 'u'
        || c == 'U' || c == 'W' || c == 'G' || c == 'g' || c == 'V' || c == 'j' || c == 'H' || c
        == 'k' || c == 'I' || c == 'l' || c == 'M' || c == 'S' || c == 's' || c == 'b' || c == 'h'
        || c == 'B' || c == 'a' || c == 'A' || c == 'P' || c == 'p' || c == 'F' || c == 'v' || c
        == 'R' || c == 'D' || c == 'x' || c == 'T' || c == 'X' || c == 'r' || c == 'c' || c == '%'
        || c == 'n' || c == 't' || c == 'L' || c == 'N' || c == 'z' || c == 'Z' || c == ':'
}

/// A directive that is copied to the output as written.
pub open spec fn is_unknown(d: DirectiveModel) -> bool {
    d.colon_failed || !known_spec(d.spec)
}

/// English month names, January first.
pub open spec fn month_name(m: int) -> Seq<char> {
    if m == 1 {
        seq!['J', 'a', 'n', 'u', 'a', 'r', 'y']
    } else if m == 2 {
        seq!['F', 'e', 'b', 'r', 'u', 'a', 'r', 'y']
    } else if m == 3 {
        seq!['M', 'a', 'r', 'c', 'h']
    } else if m == 4 {
        seq!['A', 'p', 'r', 'i', 'l']
    } else if m == 5 {
        seq!['M', 'a', 'y']
    } else if m == 6 {
        seq!['J', 'u', 'n', 'e']
    } else if m == 7 {
        seq!['J', 'u', 'l', 'y']
    } else if m == 8 {
        seq!['A', 'u', 'g', 'u', 's', 't']
    } else if m == 9 {
        seq!['S', 'e', 'p', 't', 'e', 'm', 'b', 'e', 'r']
    } else if m == 10 {
        seq!['O', 'c', 't', 'o', 'b', 'e', 'r']
    } else if m == 11 {
        seq!['N', 'o', 'v', 'e', 'm', 'b', 'e', 'r']
    } else {
        seq!['D', 'e', 'c', 'e', 'm', 'b', 'e', 'r']
    }
}

/// English weekday names, Monday first.
pub open spec fn weekday_name(w: int) -> Seq<char> {
    if w == 0 {
        seq!['M', 'o', 'n', 'd', 'a', 'y']
    } else if w == 1 {
        seq!['T', 'u', 'e', 's', 'd', 'a', 'y']
    } else if w == 2 {
        seq!['W', 'e', 'd', 'n', 'e', 's', 'd', 'a', 'y']
    } else if w == 3 {
        seq!['T', 'h', 'u', 'r', 's', 'd', 'a', 'y']
    } else if w == 4 {
        seq!['F', 'r', 'i', 'd', 'a', 'y']
    } else if w == 5 {
        seq!['S', 'a', 't', 'u', 'r', 'd', 'a', 'y']
    } else {
        seq!['S', 'u', 'n', 'd', 'a', 'y']
    }
}

/// The three-letter abbreviation of a month.
pub open spec fn month_abbr(m: int) -> Seq<char> {
    month_name(m).take(3)
}

/// The three-letter abbreviation of a weekday.
pub open spec fn weekday_abbr(w: int) -> Seq<char> {
    weekday_name(w).take(3)
}

/// The hour on a 12-hour clock.
pub open spec fn hour12(h: int) -> int {
    if h == 0 || h == 12 {
        12
    } else if h < 12 {
        h
    } else {
        h - 12
    }
}

/// Division by 100 rounding towards zero.
pub open spec fn div100(n: int) -> int {
    if n >= 0 {
        n / 100
    } else {
        -((-n) / 100)
    }
}

/// Remainder of the division by 100 rounding towards zero (sign of `n`).
pub open spec fn rem100(n: int) -> int {
    if n >= 0 {
        n % 100
    } else {
        -((-n) % 100)
    }
}

/// `|n|`
pub open spec fn abs(n: int) -> int {
    if n < 0 {
        -n
    } else {
        n
    }
}

/// The numeric conversions: value and default width.
pub open spec fn numeric_of(p: DateTimeParts, c: char) -> Option<(int, int)> {
    if c == 'Y' {
        Some((p.year as int, 4))
    } else if c == 'C' {
        Some((div100(p.year as int), 2))
    } else if c == 'y' {
        Some((rem100(p.year as int), 2))
    } else if c == 'm' {
        Some((p.month as int, 2))
    } else if c == 'd' || c == 'e' {
        Some((p.day as int, 2))
    } else if c == 'w' {
        Some(((p.weekday + 1) % 7, 0))
    } else if c == 'u' {
        Some((p.weekday + 1, 0))
    } else if c == 'U' {
        Some((p.sunday_week as int, 2))
    } else if c == 'W' {
        Some((p.monday_week as int, 2))
    } else if c == 'G' {
        Some((p.iso_year as int, 4))
    } else if c == 'g' {
        Some((rem100(p.iso_year as int), 2))
    } else if c == 'V' {
        Some((p.iso_week as int, 2))
    } else if c == 'j' {
        Some((p.ordinal as int, 3))
    } else if c == 'H' || c == 'k' {
        Some((p.hour as int, 2))
    } else if c == 'I' || c == 'l' {
        Some((hour12(p.hour as int), 2))
    } else if c == 'M' {
        Some((p.minute as int, 2))
    } else if c == 'S' {
        Some((p.second as int, 2))
    } else if c == 's' {
        Some((p.unix_timestamp as int, 0))
    } else {
        None
    }
}

/// `'0'` for the default and zero styles, a space otherwise.
pub open spec fn numeric_fill(st: PaddingStyle) -> char {
    if st == PaddingStyle::Space {
        ' '
    } else {
        '0'
    }
}

/// `'0'` for the zero style, a space otherwise.
pub open spec fn text_fill(st: PaddingStyle) -> char {
    if st == PaddingStyle::Zero {
        '0'
    } else {
        ' '
    }
}

/// A number with its sign and padding.
pub open spec fn numeric_text(v: int, def: int, use_padding: bool, st: PaddingStyle, width: Option<
    int,
>) -> Seq<char> {
    let neg = v < 0;
    let mag = nat_text(abs(v) as nat);
    if use_padding {
        let target = match width {
            Some(w) => w,
            None => def + if neg {
                1int
            } else {
                0int
            },
        };
        let fill = repeat(numeric_fill(st), target - int_text(v).len());
        let lead = if neg && st != PaddingStyle::Space {
            seq!['-']
        } else {
            Seq::empty()
        };
        let mid = if neg && st == PaddingStyle::Space {
            seq!['-']
        } else {
            Seq::empty()
        };
        lead + fill + mid + mag
    } else if neg {
        seq!['-'] + mag
    } else {
        mag
    }
}

/// `AM`/`PM` or `am`/`pm` for `%p` and `%P`.
pub open spec fn meridiem(p: DateTimeParts, c: char, ca: Casing) -> Seq<char> {
    let upper = (c == 'p' && ca != Casing::Change) || (c == 'P' && ca != Casing::Default);
    let am = p.hour < 12;
    if upper {
        if am {
            seq!['A', 'M']
        } else {
            seq!['P', 'M']
        }
    } else if am {
        seq!['a', 'm']
    } else {
        seq!['p', 'm']
    }
}

/// The textual conversions.
pub open spec fn alpha_of(p: DateTimeParts, c: char, ca: Casing) -> Option<Seq<char>> {
    if c == 'b' || c == 'h' {
        Some(month_abbr(p.month as int))
    } else if c == 'B' {
        Some(month_name(p.month as int))
    } else if c == 'a' {
        Some(weekday_abbr(p.weekday as int))
    } else if c == 'A' {
        Some(weekday_name(p.weekday as int))
    } else if c == 'p' || c == 'P' {
        Some(meridiem(p, c, ca))
    } else {
        None
    }
}

/// `hh:mm:ss`
pub open spec fn hms(p: DateTimeParts) -> Seq<char> {
    zero_pad(p.hour as int, 2) + seq![':'] + zero_pad(p.minute as int, 2) + seq![':'] + zero_pad(
        p.second as int,
        2,
    )
}

/// The composite conversions: text and the width it counts as.
pub open spec fn formatted_of(p: DateTimeParts, c: char) -> Option<(Seq<char>, int)> {
    if c == 'F' {
        Some(
            (
                zero_pad(p.year as int, 4) + seq!['-'] + zero_pad(p.month as int, 2) + seq!['-']
                    + zero_pad(p.day as int, 2),
                10,
            ),
        )
    } else if c == 'v' {
        Some(
            (
                right_align(int_text(p.day as int), 2) + seq!['-'] + month_abbr(p.month as int)
                    + seq!['-'] + zero_pad(p.year as int, 4),
                11,
            ),
        )
    } else if c == 'R' {
        Some((zero_pad(p.hour as int, 2) + seq![':'] + zero_pad(p.minute as int, 2), 5))
    } else if c == 'D' || c == 'x' {
        Some(
            (
                zero_pad(p.month as int, 2) + seq!['/'] + zero_pad(p.day as int, 2) + seq!['/']
                    + zero_pad(rem100(p.year as int), 2),
                8,
            ),
        )
    } else if c == 'T' || c == 'X' {
        Some((hms(p), 8))
    } else if c == 'r' {
        Some(
            (
                zero_pad(hour12(p.hour as int), 2) + seq![':'] + zero_pad(p.minute as int, 2)
                    + seq![':'] + zero_pad(p.second as int, 2) + seq![' '] + meridiem(
                    p,
                    'p',
                    Casing::Default,
                ),
                11,
            ),
        )
    } else if c == 'c' {
        Some(
            (
                weekday_abbr(p.weekday as int) + seq![' '] + month_abbr(p.month as int) + seq![' ']
                    + right_align(int_text(p.day as int), 2) + seq![' '] + hms(p) + seq![' ']
                    + zero_pad(p.year as int, 4),
                24,
            ),
        )
    } else {
        None
    }
}

/// The literal conversions.
pub open spec fn literal_of(c: char) -> Option<char> {
    if c == '%' {
        Some('%')
    } else if c == 'n' {
        Some('\n')
    } else if c == 't' {
        Some('\t')
    } else {
        None
    }
}

/// Fill in front of a composite conversion, by width alone.
pub open spec fn comp_fill(width: Option<int>, st: PaddingStyle, n: int) -> Seq<char> {
    match width {
        Some(w) => repeat(text_fill(st), w - n),
        None => Seq::empty(),
    }
}

/// Upper-cases `s` when `ca` asks for it.
pub open spec fn cased(ca: Casing, s: Seq<char>) -> Seq<char> {
    if ca != Casing::Default {
        ascii_upper(s)
    } else {
        s
    }
}

/// `%L` / `%N`: the leading `digits` digits of the fraction of the second.
pub open spec fn fraction_text(nanos: int, width: Option<int>, c: char) -> Seq<char> {
    let digits = match width {
        Some(w) => w,
        None => if c == 'L' {
            3int
        } else {
            9int
        },
    };
    let v = if digits <= 9 {
        nanos / (pow10((9 - digits) as nat) as int)
    } else {
        nanos
    };
    nat_text(v as nat) + repeat('0', digits - nat_text(v as nat).len())
}

/// `%z`, `%Z`, `%:z`, `%::z`: the UTC offset.
pub open spec fn zone_text(
    p: DateTimeParts,
    st: PaddingStyle,
    width: Option<int>,
    hm_sep: bool,
    ms_sep: bool,
) -> Seq<char> {
    let size = 5 + (if hm_sep {
        1int
    } else {
        0int
    }) + (if ms_sep {
        3int
    } else {
        0int
    });
    let w = match width {
        Some(x) => x,
        None => 0,
    };
    let pad = (if w > size {
        w - size
    } else {
        0
    }) + 2;
    zone_head(p, st, pad) + zone_tail(p, hm_sep, ms_sep)
}

/// The style after `%e`, `%k` and `%l` switch the default to spaces.
pub open spec fn effective_style(c: char, st: PaddingStyle) -> PaddingStyle {
    if (c == 'e' || c == 'k' || c == 'l') && st == PaddingStyle::Default {
        PaddingStyle::Space
    } else {
        st
    }
}

/// The text of one directive.
pub open spec fn render_directive(p: DateTimeParts, fmt: Seq<char>, d: DirectiveModel) -> Seq<
    char,
> {
    let c = d.spec;
    if is_unknown(d) {
        fmt.subrange(d.start, d.last + 1)
    } else if c == 'L' || c == 'N' {
        fraction_text(p.nanosecond as int, d.width, c)
    } else if c == 'z' || c == 'Z' || c == ':' {
        zone_text(p, d.style, d.width, c != 'z', d.with_seconds)
    } else if let Some((v, def)) = numeric_of(p, c) {
        numeric_text(v, def, d.use_padding, effective_style(c, d.style), d.width)
    } else if let Some(s) = alpha_of(p, c, d.casing) {
        let fill = if d.use_padding && d.width is Some {
            repeat(text_fill(d.style), d.width->0 - s.len())
        } else {
            Seq::empty()
        };
        let ca = if c == 'p' || c == 'P' {
            Casing::Default
        } else {
            d.casing
        };
        cased(ca, fill + s)
    } else if let Some((s, n)) = formatted_of(p, c) {
        let ca = if c == 'v' {
            Casing::Upper
        } else {
            d.casing
        };
        cased(ca, comp_fill(d.width, d.style, n) + s)
    } else {
        let lit = literal_of(c)->0;
        let fill = if d.use_padding && d.width is Some {
            repeat(text_fill(d.style), d.width->0 - 1)
        } else {
            Seq::empty()
        };
        fill + seq![lit]
    }
}

/// Formats `fmt[i..]`.
pub open spec fn strftime_from(p: DateTimeParts, fmt: Seq<char>, i: int) -> Result<
    Seq<char>,
    FormatErrorKind,
>
    decreases fmt.len() - i,
    when 0 <= i
{
    if i >= fmt.len() {
        Ok(Seq::empty())
    } else if fmt[i] != '%' {
        match strftime_from(p, fmt, i + 1) {
            Ok(rest) => Ok(seq![fmt[i]] + rest),
            Err(e) => Err(e),
        }
    } else {
        match scan_directive(fmt, i) {
            Err(e) => Err(e),
            Ok(d) => {
                proof {
                    lemma_scan_directive(fmt, i);
                }
                match strftime_from(p, fmt, d.last + 1) {
                    Ok(rest) => Ok(render_directive(p, fmt, d) + rest),
                    Err(e) => Err(e),
                }
            },
        }
    }
}

/// `strftime` of the whole format string.
pub open spec fn spec_strftime(p: DateTimeParts, fmt: Seq<char>) -> Result<Seq<char>, FormatErrorKind> {
    strftime_from(p, fmt, 0)
}

/// The view of an optional width.
pub open spec fn opt_int(w: Option<usize>) -> Option<int> {
    match w {
        Some(x) => Some(x as int),
        None => None,
    }
}

/// Scans the directive that starts with the `%` at `p`.
pub fn scan(fmt: &Vec<char>, p: usize) -> (r: Result<Directive, DateFormatError>)
    requires
        p < fmt@.len(),
    ensures
        match r {
            Ok(d) => scan_directive(fmt@, p as int) == Ok::<DirectiveModel, FormatErrorKind>(d@),
            Err(e) => scan_directive(fmt@, p as int) == Err::<DirectiveModel, FormatErrorKind>(
                e.kind(),
            ),
        },
{
    let n = fmt.len();
    let mut i: usize = p + 1;
    let mut up = true;
    let mut st = PaddingStyle::Default;
    let mut ca = Casing::Default;
    loop
        invariant
            p + 1 <= i <= n,
            n == fmt@.len(),
            scan_flags(fmt@, p + 1, true, PaddingStyle::Default, Casing::Default) == scan_flags(
                fmt@,
                i as int,
                up,
                st,
                ca,
            ),
        ensures
            p + 1 <= i < n,
            n == fmt@.len(),
            scan_flags(fmt@, p + 1, true, PaddingStyle::Default, Casing::Default) == Some(
                (i as int, up, st, ca),
            ),
        decreases n - i,
    {
        if i >= n {
            return Err(DateFormatError::NoFormatSpecifier);
        }
        let c = fmt[i];
        if c == '-' {
            up = false;
        } else if c == '_' {
            st = PaddingStyle::Space;
        } else if c == '0' {
            st = PaddingStyle::Zero;
        } else if c == '^' {
            ca = Casing::Upper;
        } else if c == '#' {
            ca = Casing::Change;
        } else {
            break;
        }
        i = i + 1;
    }
    let j = i;
    let has_width = '0' <= fmt[j] && fmt[j] <= '9';
    let mut k = j;
    if has_width {
        while k < n && '0' <= fmt[k] && fmt[k] <= '9'
            invariant
                j <= k <= n,
                n == fmt@.len(),
                is_digit(fmt@[j as int]),
                digits_end(fmt@, j as int) == digits_end(fmt@, k as int),
                all_digits(fmt@.subrange(j as int, k as int)),
            decreases n - k,
        {
            k = k + 1;
            assert(fmt@.subrange(j as int, k as int) =~= fmt@.subrange(j as int, k - 1).push(
                fmt@[k - 1],
            ));
        }
    }
    if k >= n {
        return Err(DateFormatError::NoFormatSpecifier);
    }
    let mut width: Option<usize> = None;
    if has_width {
        let mut digits: Vec<char> = Vec::new();
        let mut q = j;
        while q < k
            invariant
                j <= q <= k,
                k < n,
                n == fmt@.len(),
                digits@ == fmt@.subrange(j as int, q as int),
            decreases k - q,
        {
            digits.push(fmt[q]);
            q = q + 1;
            assert(fmt@.subrange(j as int, q as int) =~= fmt@.subrange(j as int, q - 1).push(
                fmt@[q - 1],
            ));
        }
        let text = string_of(digits.as_slice());
        match parse_width(text.as_str()) {
            Ok(w) => {
                width = Some(w);
            },
            Err(e) => {
                return Err(DateFormatError::InvalidWidth(e));
            },
        }
    }
    let c = fmt[k];
    let modifier = c == 'E' || c == 'O';
    if modifier && k + 1 >= n {
        return Err(DateFormatError::NoFormatSpecifierAfterModifier);
    }
    let s: usize = if modifier { k + 1 } else { k };
    let spec = fmt[s];
    let mut d = Directive {
        use_padding: up,
        style: st,
        casing: ca,
        width,
        spec,
        with_seconds: false,
        colon_failed: false,
        start: p,
        last: s,
    };
    if spec == ':' {
        if s + 1 >= n {
            d.colon_failed = true;
        } else if fmt[s + 1] == 'z' {
            d.last = s + 1;
        } else if fmt[s + 1] == ':' {
            if s + 2 >= n {
                d.colon_failed = true;
                d.last = s + 1;
            } else if fmt[s + 2] == 'z' {
                d.with_seconds = true;
                d.last = s + 2;
            } else {
                d.colon_failed = true;
                d.last = s + 2;
            }
        } else {
            d.colon_failed = true;
            d.last = s + 1;
        }
    }
    Ok(d)
}


/// The English name of month `m`.
pub fn month_name_str(m: u8) -> (r: &'static str)
    requires
        1 <= m <= 12,
    ensures
        r@ == month_name(m as int),
{
    if m == 1 {
        proof {
            reveal_strlit("January");
        }
        "January"
    } else if m == 2 {
        proof {
            reveal_strlit("February");
        }
        "February"
    } else if m == 3 {
        proof {
            reveal_strlit("March");
        }
        "March"
    } else if m == 4 {
        proof {
            reveal_strlit("April");
        }
        "April"
    } else if m == 5 {
        proof {
            reveal_strlit("May");
        }
        "May"
    } else if m == 6 {
        proof {
            reveal_strlit("June");
        }
        "June"
    } else if m == 7 {
        proof {
            reveal_strlit("July");
        }
        "July"
    } else if m == 8 {
        proof {
            reveal_strlit("August");
        }
        "August"
    } else if m == 9 {
        proof {
            reveal_strlit("September");
        }
        "September"
    } else if m == 10 {
        proof {
            reveal_strlit("October");
        }
        "October"
    } else if m == 11 {
        proof {
            reveal_strlit("November");
        }
        "November"
    } else {
        proof {
            reveal_strlit("December");
        }
        "December"
    }
}

/// The English name of weekday `w` (days since Monday).
pub fn weekday_name_str(w: u8) -> (r: &'static str)
    requires
        w < 7,
    ensures
        r@ == weekday_name(w as int),
{
    if w == 0 {
        proof {
            reveal_strlit("Monday");
        }
        "Monday"
    } else if w == 1 {
        proof {
            reveal_strlit("Tuesday");
        }
        "Tuesday"
    } else if w == 2 {
        proof {
            reveal_strlit("Wednesday");
        }
        "Wednesday"
    } else if w == 3 {
        proof {
            reveal_strlit("Thursday");
        }
        "Thursday"
    } else if w == 4 {
        proof {
            reveal_strlit("Friday");
        }
        "Friday"
    } else if w == 5 {
        proof {
            reveal_strlit("Saturday");
        }
        "Saturday"
    } else {
        proof {
            reveal_strlit("Sunday");
        }
        "Sunday"
    }
}

/// Appends the first three characters of `name`.
pub(crate) fn push_abbr(out: &mut Vec<char>, name: &str)
    requires
        name@.len() >= 3,
    ensures
        final(out)@ == old(out)@ + name@.take(3),
{
    let v = crate::text::chars_of(name);
    out.push(v[0]);
    out.push(v[1]);
    out.push(v[2]);
    assert(final(out)@ =~= old(out)@ + name@.take(3));
}

/// `n / 100` and `n % 100`, rounding towards zero.
pub(crate) fn div_rem100(n: i32) -> (r: (i64, i64))
    ensures
        r.0 == div100(n as int),
        r.1 == rem100(n as int),
{
    let a: i64 = n as i64;
    if a >= 0 {
        (a / 100, a % 100)
    } else {
        let b: i64 = -a;
        (-(b / 100), -(b % 100))
    }
}

/// The hour on a 12-hour clock.
pub(crate) fn hour12_of(h: u8) -> (r: u8)
    requires
        h < 24,
    ensures
        r == hour12(h as int),
{
    if h == 0 || h == 12 {
        12
    } else if h < 12 {
        h
    } else {
        h - 12
    }
}

/// The value and default width of a numeric conversion.
fn numeric_value(p: &DateTimeParts, c: char) -> (r: Option<(i64, usize)>)
    requires
        p.wf(),
    ensures
        match r {
            Some((v, def)) => numeric_of(*p, c) == Some((v as int, def as int)) && def <= 4,
            None => numeric_of(*p, c) is None,
        },
{
    if c == 'Y' {
        Some((p.year as i64, 4))
    } else if c == 'C' {
        Some((div_rem100(p.year).0, 2))
    } else if c == 'y' {
        Some((div_rem100(p.year).1, 2))
    } else if c == 'm' {
        Some((p.month as i64, 2))
    } else if c == 'd' || c == 'e' {
        Some((p.day as i64, 2))
    } else if c == 'w' {
        Some((((p.weekday + 1) % 7) as i64, 0))
    } else if c == 'u' {
        Some(((p.weekday + 1) as i64, 0))
    } else if c == 'U' {
        Some((p.sunday_week as i64, 2))
    } else if c == 'W' {
        Some((p.monday_week as i64, 2))
    } else if c == 'G' {
        Some((p.iso_year as i64, 4))
    } else if c == 'g' {
        Some((div_rem100(p.iso_year).1, 2))
    } else if c == 'V' {
        Some((p.iso_week as i64, 2))
    } else if c == 'j' {
        Some((p.ordinal as i64, 3))
    } else if c == 'H' || c == 'k' {
        Some((p.hour as i64, 2))
    } else if c == 'I' || c == 'l' {
        Some((hour12_of(p.hour) as i64, 2))
    } else if c == 'M' {
        Some((p.minute as i64, 2))
    } else if c == 'S' {
        Some((p.second as i64, 2))
    } else if c == 's' {
        Some((p.unix_timestamp, 0))
    } else {
        None
    }
}

/// Appends a number with its sign and padding.
fn push_numeric(
    out: &mut Vec<char>,
    v: i64,
    def: usize,
    use_padding: bool,
    st: PaddingStyle,
    width: Option<usize>,
)
    requires
        def <= 4,
    ensures
        final(out)@ == old(out)@ + numeric_text(v as int, def as int, use_padding, st, opt_int(width)),
{
    let ghost start = out@;
    let m = crate::text::magnitude(v);
    let neg = v < 0;
    if use_padding {
        let len0 = crate::text::decimal_len(m);
        let digits: usize = if neg { len0 + 1 } else { len0 };
        assert(digits == int_text(v as int).len());
        let target: usize = match width {
            Some(w) => w,
            None => if neg { def + 1 } else { def },
        };
        let fill: usize = if target > digits { target - digits } else { 0 };
        let fc = if st == PaddingStyle::Space { ' ' } else { '0' };
        if neg && st != PaddingStyle::Space {
            out.push('-');
        }
        push_repeat(out, fc, fill);
        if neg && st == PaddingStyle::Space {
            out.push('-');
        }
        push_nat_text(out, m);
        assert(repeat(fc, fill as int) =~= repeat(numeric_fill(st), target - digits));
    } else {
        if neg {
            out.push('-');
        }
        push_nat_text(out, m);
    }
    assert(out@ =~= start + numeric_text(v as int, def as int, use_padding, st, opt_int(width)));
}


/// `AM`/`PM` or `am`/`pm` for `%p` and `%P`.
pub(crate) fn meridiem_str(p: &DateTimeParts, c: char, ca: Casing) -> (r: &'static str)
    ensures
        r@ == meridiem(*p, c, ca),
{
    let upper = (c == 'p' && ca != Casing::Change) || (c == 'P' && ca != Casing::Default);
    let am = p.hour < 12;
    if upper {
        if am {
            proof {
                reveal_strlit("AM");
            }
            "AM"
        } else {
            proof {
                reveal_strlit("PM");
            }
            "PM"
        }
    } else if am {
        proof {
            reveal_strlit("am");
        }
        "am"
    } else {
        proof {
            reveal_strlit("pm");
        }
        "pm"
    }
}

/// The text of a textual conversion.
fn alpha_text(p: &DateTimeParts, c: char, ca: Casing) -> (r: Option<Vec<char>>)
    requires
        p.wf(),
    ensures
        match r {
            Some(v) => alpha_of(*p, c, ca) == Some(v@),
            None => alpha_of(*p, c, ca) is None,
        },
{
    let mut v: Vec<char> = Vec::new();
    if c == 'b' || c == 'h' {
        push_abbr(&mut v, month_name_str(p.month));
    } else if c == 'B' {
        crate::text::push_str(&mut v, month_name_str(p.month));
    } else if c == 'a' {
        push_abbr(&mut v, weekday_name_str(p.weekday));
    } else if c == 'A' {
        crate::text::push_str(&mut v, weekday_name_str(p.weekday));
    } else if c == 'p' || c == 'P' {
        crate::text::push_str(&mut v, meridiem_str(p, c, ca));
    } else {
        return None;
    }
    assert(v@ =~= alpha_of(*p, c, ca)->0);
    Some(v)
}

/// Appends `hh:mm:ss`.
pub(crate) fn push_hms(out: &mut Vec<char>, p: &DateTimeParts)
    ensures
        final(out)@ == old(out)@ + hms(*p),
{
    push_zero_padded(out, p.hour as i64, 2);
    out.push(':');
    push_zero_padded(out, p.minute as i64, 2);
    out.push(':');
    push_zero_padded(out, p.second as i64, 2);
    assert(final(out)@ =~= old(out)@ + hms(*p));
}

/// Composite conversion text for `F`, `v`, `R`, `D` and `x`.
#[verifier::rlimit(60)]
fn date_composite(p: &DateTimeParts, c: char) -> (r: Vec<char>)
    requires
        p.wf(),
        c == 'F' || c == 'v' || c == 'R' || c == 'D' || c == 'x',
    ensures
        formatted_of(*p, c) matches Some(t) && r@ == t.0,
{
    let mut v: Vec<char> = Vec::new();
    if c == 'F' {
        push_zero_padded(&mut v, p.year as i64, 4);
        v.push('-');
        push_zero_padded(&mut v, p.month as i64, 2);
        v.push('-');
        push_zero_padded(&mut v, p.day as i64, 2);
        assert(v@ =~= zero_pad(p.year as int, 4) + seq!['-'] + zero_pad(p.month as int, 2)
            + seq!['-'] + zero_pad(p.day as int, 2));
    } else if c == 'v' {
        push_right_aligned(&mut v, p.day as i64, 2);
        v.push('-');
        push_abbr(&mut v, month_name_str(p.month));
        v.push('-');
        push_zero_padded(&mut v, p.year as i64, 4);
        assert(v@ =~= right_align(int_text(p.day as int), 2) + seq!['-'] + month_abbr(
            p.month as int,
        ) + seq!['-'] + zero_pad(p.year as int, 4));
    } else if c == 'R' {
        push_zero_padded(&mut v, p.hour as i64, 2);
        v.push(':');
        push_zero_padded(&mut v, p.minute as i64, 2);
        assert(v@ =~= zero_pad(p.hour as int, 2) + seq![':'] + zero_pad(p.minute as int, 2));
    } else {
        push_zero_padded(&mut v, p.month as i64, 2);
        v.push('/');
        push_zero_padded(&mut v, p.day as i64, 2);
        v.push('/');
        push_zero_padded(&mut v, div_rem100(p.year).1, 2);
        assert(v@ =~= zero_pad(p.month as int, 2) + seq!['/'] + zero_pad(p.day as int, 2) + seq![
            '/',
        ] + zero_pad(rem100(p.year as int), 2));
    }
    v
}

/// Composite conversion text for `T`, `X`, `r` and `c`.
#[verifier::rlimit(60)]
fn time_composite(p: &DateTimeParts, c: char) -> (r: Vec<char>)
    requires
        p.wf(),
        c == 'T' || c == 'X' || c == 'r' || c == 'c',
    ensures
        formatted_of(*p, c) matches Some(t) && r@ == t.0,
{
    let mut v: Vec<char> = Vec::new();
    if c == 'T' || c == 'X' {
        push_hms(&mut v, p);
    } else if c == 'r' {
        push_zero_padded(&mut v, hour12_of(p.hour) as i64, 2);
        v.push(':');
        push_zero_padded(&mut v, p.minute as i64, 2);
        v.push(':');
        push_zero_padded(&mut v, p.second as i64, 2);
        v.push(' ');
        crate::text::push_str(&mut v, meridiem_str(p, 'p', Casing::Default));
        assert(v@ =~= zero_pad(hour12(p.hour as int), 2) + seq![':'] + zero_pad(p.minute as int, 2)
            + seq![':'] + zero_pad(p.second as int, 2) + seq![' '] + meridiem(
            *p,
            'p',
            Casing::Default,
        ));
    } else {
        push_abbr(&mut v, weekday_name_str(p.weekday));
        v.push(' ');
        push_abbr(&mut v, month_name_str(p.month));
        v.push(' ');
        push_right_aligned(&mut v, p.day as i64, 2);
        v.push(' ');
        push_hms(&mut v, p);
        v.push(' ');
        push_zero_padded(&mut v, p.year as i64, 4);
        assert(v@ =~= weekday_abbr(p.weekday as int) + seq![' '] + month_abbr(p.month as int)
            + seq![' '] + right_align(int_text(p.day as int), 2) + seq![' '] + hms(*p) + seq![' ']
            + zero_pad(p.year as int, 4));
    }
    v
}

/// The text of a composite conversion and the width it counts as.
fn formatted_text(p: &DateTimeParts, c: char) -> (r: Option<(Vec<char>, usize)>)
    requires
        p.wf(),
    ensures
        match r {
            Some((v, n)) => formatted_of(*p, c) == Some((v@, n as int)),
            None => formatted_of(*p, c) is None,
        },
{
    if c == 'F' {
        Some((date_composite(p, c), 10))
    } else if c == 'v' {
        Some((date_composite(p, c), 11))
    } else if c == 'R' {
        Some((date_composite(p, c), 5))
    } else if c == 'D' || c == 'x' {
        Some((date_composite(p, c), 8))
    } else if c == 'T' || c == 'X' {
        Some((time_composite(p, c), 8))
    } else if c == 'r' {
        Some((time_composite(p, c), 11))
    } else if c == 'c' {
        Some((time_composite(p, c), 24))
    } else {
        None
    }
}

/// The character of a literal conversion.
fn literal_char(c: char) -> (r: Option<char>)
    ensures
        r == literal_of(c),
{
    if c == '%' {
        Some('%')
    } else if c == 'n' {
        Some('\n')
    } else if c == 't' {
        Some('\t')
    } else {
        None
    }
}

/// Whether a conversion character has a meaning.
fn is_known(c: char) -> (r: bool)
    ensures
        r == known_spec(c),
{
    c == 'Y' || c == 'C' || c == 'y' || c == 'm' || c == 'd' || c == 'e' || c == 'w' || c == 'u'
        || c == 'U' || c == 'W' || c == 'G' || c == 'g' || c == 'V' || c == 'j' || c == 'H' || c
        == 'k' || c == 'I' || c == 'l' || c == 'M' || c == 'S' || c == 's' || c == 'b' || c == 'h'
        || c == 'B' || c == 'a' || c == 'A' || c == 'P' || c == 'p' || c == 'F' || c == 'v' || c
        == 'R' || c == 'D' || c == 'x' || c == 'T' || c == 'X' || c == 'r' || c == 'c' || c == '%'
        || c == 'n' || c == 't' || c == 'L' || c == 'N' || c == 'z' || c == 'Z' || c == ':'
}

/// Appends `%L` / `%N`.
fn push_fraction(out: &mut Vec<char>, nanos: u32, width: Option<usize>, c: char)
    requires
        nanos < 1_000_000_000,
    ensures
        final(out)@ == old(out)@ + fraction_text(nanos as int, opt_int(width), c),
{
    let ghost start = out@;
    let digits: usize = match width {
        Some(w) => w,
        None => if c == 'L' { 3 } else { 9 },
    };
    let v: u64 = if digits <= 9 {
        let e = 9 - digits;
        let div: u64 = if e == 0 {
            1
        } else if e == 1 {
            10
        } else if e == 2 {
            100
        } else if e == 3 {
            1000
        } else if e == 4 {
            10000
        } else if e == 5 {
            100000
        } else if e == 6 {
            1000000
        } else if e == 7 {
            10000000
        } else if e == 8 {
            100000000
        } else {
            1000000000
        };
        assert(div == pow10(e as nat)) by {
            reveal_with_fuel(pow10, 10);
        }
        (nanos as u64) / div
    } else {
        nanos as u64
    };
    push_nat_text(out, v);
    let len = crate::text::decimal_len(v);
    let fill: usize = if digits > len { digits - len } else { 0 };
    push_repeat(out, '0', fill);
    assert(repeat('0', fill as int) =~= repeat('0', digits - len));
    assert(out@ =~= start + fraction_text(nanos as int, opt_int(width), c));
}

/// The hours part of the UTC offset, padded to `pad` characters.
#[verifier::opaque]
pub open spec fn zone_head(p: DateTimeParts, st: PaddingStyle, pad: int) -> Seq<char> {
    let h = p.offset_hours as int;
    if st != PaddingStyle::Space {
        seq![
            if p.offset_negative {
                '-'
            } else {
                '+'
            },
        ] + zero_pad(abs(h), pad)
    } else {
        right_align(
            if h < 0 {
                int_text(h)
            } else {
                seq!['+'] + nat_text(h as nat)
            },
            pad,
        )
    }
}

/// Appends the hours part of the UTC offset.
fn push_zone_head(out: &mut Vec<char>, p: &DateTimeParts, st: PaddingStyle, pad: usize)
    requires
        p.wf(),
    ensures
        final(out)@ == old(out)@ + zone_head(*p, st, pad as int),
{
    let ghost start = out@;
    reveal(zone_head);
    let h: i64 = p.offset_hours as i64;
    if st != PaddingStyle::Space {
        out.push(if p.offset_negative { '-' } else { '+' });
        push_zero_padded(out, if h < 0 { -h } else { h }, pad);
    } else if h < 0 {
        push_right_aligned(out, h, pad);
    } else {
        let len = crate::text::decimal_len(h as u64);
        let fill: usize = if pad > len + 1 { pad - len - 1 } else { 0 };
        push_repeat(out, ' ', fill);
        out.push('+');
        push_nat_text(out, h as u64);
        assert(repeat(' ', fill as int) =~= repeat(' ', pad - (1 + len)));
    }
    assert(out@ =~= start + zone_head(*p, st, pad as int));
}

/// The minutes (and seconds) part of the UTC offset.
#[verifier::opaque]
pub open spec fn zone_tail(p: DateTimeParts, hm_sep: bool, ms_sep: bool) -> Seq<char> {
    (if hm_sep {
        seq![':']
    } else {
        Seq::empty()
    }) + zero_pad(abs(p.offset_minutes as int), 2) + (if ms_sep {
        seq![':'] + zero_pad(abs(p.offset_seconds as int), 2)
    } else {
        Seq::empty()
    })
}

/// Appends the minutes (and seconds) part of the UTC offset.
fn push_zone_tail(out: &mut Vec<char>, p: &DateTimeParts, hm_sep: bool, ms_sep: bool)
    requires
        p.wf(),
    ensures
        final(out)@ == old(out)@ + zone_tail(*p, hm_sep, ms_sep),
{
    let ghost start = out@;
    let ghost sep: Seq<char> = if hm_sep {
        seq![':']
    } else {
        Seq::empty()
    };
    let ghost mid = zero_pad(abs(p.offset_minutes as int), 2);
    let ghost tl: Seq<char> = if ms_sep {
        seq![':'] + zero_pad(abs(p.offset_seconds as int), 2)
    } else {
        Seq::empty()
    };
    if hm_sep {
        out.push(':');
    }
    assert(out@ =~= start + sep);
    let mm: i64 = p.offset_minutes as i64;
    let am: i64 = if mm < 0 { -mm } else { mm };
    push_zero_padded(out, am, 2);
    let ghost after_mid = out@;
    assert(after_mid == start + sep + mid);
    if ms_sep {
        out.push(':');
        let ss: i64 = p.offset_seconds as i64;
        let as_: i64 = if ss < 0 { -ss } else { ss };
        push_zero_padded(out, as_, 2);
    }
    assert(out@ =~= after_mid + tl);
    assert(zone_tail(*p, hm_sep, ms_sep) == sep + mid + tl) by {
        reveal(zone_tail);
    }
    assert(out@ =~= start + (sep + mid + tl));
}

/// Appends the UTC offset for `%z`, `%Z`, `%:z` and `%::z`.
fn push_zone(
    out: &mut Vec<char>,
    p: &DateTimeParts,
    st: PaddingStyle,
    width: Option<usize>,
    hm_sep: bool,
    ms_sep: bool,
)
    requires
        p.wf(),
    ensures
        final(out)@ == old(out)@ + zone_text(*p, st, opt_int(width), hm_sep, ms_sep),
{
    let ghost start = out@;
    let size: usize = 5 + (if hm_sep { 1 } else { 0 }) + (if ms_sep { 3 } else { 0 });
    let w: usize = match width {
        Some(x) => x,
        None => 0,
    };
    let pad: usize = (if w > size { w - size } else { 0 }) + 2;
    push_zone_head(out, p, st, pad);
    push_zone_tail(out, p, hm_sep, ms_sep);
    assert(out@ =~= start + zone_text(*p, st, opt_int(width), hm_sep, ms_sep));
}

/// Appends `fmt[from..=last]`.
fn push_range(out: &mut Vec<char>, fmt: &Vec<char>, from: usize, last: usize)
    requires
        from <= last < fmt@.len(),
    ensures
        final(out)@ == old(out)@ + fmt@.subrange(from as int, last + 1),
{
    let ghost start = out@;
    let n = fmt.len();
    let mut q = from;
    while q <= last
        invariant
            from <= q <= last + 1,
            last < fmt@.len(),
            n == fmt@.len(),
            out@ == start + fmt@.subrange(from as int, q as int),
        decreases last + 1 - q,
    {
        out.push(fmt[q]);
        q = q + 1;
        assert(fmt@.subrange(from as int, q as int) =~= fmt@.subrange(from as int, q - 1).push(
            fmt@[q - 1],
        ));
    }
}

/// Appends `s` after `fill` copies of `fc`, upper-cased when `upper` holds.
fn push_cased(out: &mut Vec<char>, fc: char, fill: usize, s: &Vec<char>, upper: bool)
    ensures
        final(out)@ == old(out)@ + if upper {
            ascii_upper(repeat(fc, fill as int) + s@)
        } else {
            repeat(fc, fill as int) + s@
        },
{
    let ghost start = out@;
    let cur = out.len();
    push_repeat(out, fc, fill);
    crate::text::push_chars(out, s.as_slice());
    let ghost x = out@;
    assert(x =~= start + (repeat(fc, fill as int) + s@));
    if upper {
        upper_from(out, cur);
        assert(x.take(cur as int) =~= start);
        assert(x.skip(cur as int) =~= repeat(fc, fill as int) + s@);
    }
}

/// Appends the text of directive `d`.
#[verifier::rlimit(40)]
fn render(p: &DateTimeParts, fmt: &Vec<char>, d: &Directive, out: &mut Vec<char>)
    requires
        p.wf(),
        d@.start <= d@.last < fmt@.len(),
    ensures
        final(out)@ == old(out)@ + render_directive(*p, fmt@, d@),
{
    let c = d.spec;
    if d.colon_failed || !is_known(c) {
        push_range(out, fmt, d.start, d.last);
        return ;
    }
    if c == 'L' || c == 'N' {
        push_fraction(out, p.nanosecond, d.width, c);
        return ;
    }
    if c == 'z' || c == 'Z' || c == ':' {
        push_zone(out, p, d.style, d.width, c != 'z', d.with_seconds);
        return ;
    }
    match numeric_value(p, c) {
        Some((v, def)) => {
            let st = if (c == 'e' || c == 'k' || c == 'l') && d.style == PaddingStyle::Default {
                PaddingStyle::Space
            } else {
                d.style
            };
            push_numeric(out, v, def, d.use_padding, st, d.width);
            return ;
        },
        None => {},
    }
    let fc = if d.style == PaddingStyle::Zero { '0' } else { ' ' };
    match alpha_text(p, c, d.casing) {
        Some(s) => {
            let fill: usize = if d.use_padding {
                match d.width {
                    Some(w) => if w > s.len() { w - s.len() } else { 0 },
                    None => 0,
                }
            } else {
                0
            };
            let upper = !(c == 'p' || c == 'P') && d.casing != Casing::Default;
            push_cased(out, fc, fill, &s, upper);
            proof {
                if !(d.use_padding && d.width is Some) {
                    assert(repeat(fc, fill as int) =~= Seq::<char>::empty());
                }
            }
            return ;
        },
        None => {},
    }
    match formatted_text(p, c) {
        Some((s, n)) => {
            let fill: usize = match d.width {
                Some(w) => if w > n { w - n } else { 0 },
                None => 0,
            };
            let upper = c == 'v' || d.casing != Casing::Default;
            push_cased(out, fc, fill, &s, upper);
            proof {
                if d.width is None {
                    assert(repeat(fc, fill as int) =~= Seq::<char>::empty());
                }
            }
            return ;
        },
        None => {},
    }
    let lit = match literal_char(c) {
        Some(l) => l,
        None => '%',
    };
    let fill: usize = if d.use_padding {
        match d.width {
            Some(w) => if w > 1 { w - 1 } else { 0 },
            None => 0,
        }
    } else {
        0
    };
    let ghost start = out@;
    push_repeat(out, fc, fill);
    out.push(lit);
    proof {
        if !(d.use_padding && d.width is Some) {
            assert(repeat(fc, fill as int) =~= Seq::<char>::empty());
        }
    }
    assert(out@ =~= start + (repeat(fc, fill as int) + seq![lit]));
}

/// Formats `fmt` with the calendar fields `p`.
pub fn strftime_parts(p: &DateTimeParts, fmt: &str) -> (r: Result<String, DateFormatError>)
    requires
        p.wf(),
    ensures
        match r {
            Ok(s) => spec_strftime(*p, fmt@) == Ok::<Seq<char>, FormatErrorKind>(s@),
            Err(e) => spec_strftime(*p, fmt@) == Err::<Seq<char>, FormatErrorKind>(e.kind()),
        },
{
    let f = chars_of(fmt);
    let mut out: Vec<char> = Vec::new();
    let mut i: usize = 0;
    while i < f.len()
        invariant
            i <= f@.len(),
            f@ == fmt@,
            p.wf(),
            match strftime_from(*p, f@, i as int) {
                Ok(rest) => spec_strftime(*p, f@) == Ok::<Seq<char>, FormatErrorKind>(out@ + rest),
                Err(e) => spec_strftime(*p, f@) == Err::<Seq<char>, FormatErrorKind>(e),
            },
        decreases f@.len() - i,
    {
        let c = f[i];
        if c != '%' {
            proof {
                if let Ok(rest) = strftime_from(*p, f@, i + 1) {
                    assert(out@.push(c) + rest =~= out@ + (seq![c] + rest));
                }
            }
            out.push(c);
            i = i + 1;
        } else {
            proof {
                lemma_scan_directive(f@, i as int);
            }
            match scan(&f, i) {
                Err(e) => {
                    return Err(e);
                },
                Ok(d) => {
                    let ghost before = out@;
                    render(p, &f, &d, &mut out);
                    proof {
                        if let Ok(rest) = strftime_from(*p, f@, d.last + 1) {
                            assert(out@ + rest =~= before + (render_directive(*p, f@, d@) + rest));
                        }
                    }
                    i = d.last + 1;
                },
            }
        }
    }
    assert(out@ + Seq::<char>::empty() =~= out@);
    Ok(string_of(out.as_slice()))
}

/// The first failing directive of `fmt[i..]`, if any.
pub open spec fn format_error_from(fmt: Seq<char>, i: int) -> Option<FormatErrorKind>
    decreases fmt.len() - i,
    when 0 <= i
{
    if i >= fmt.len() {
        None
    } else if fmt[i] != '%' {
        format_error_from(fmt, i + 1)
    } else {
        match scan_directive(fmt, i) {
            Err(e) => Some(e),
            Ok(d) => {
                proof {
                    lemma_scan_directive(fmt, i);
                }
                format_error_from(fmt, d.last + 1)
            },
        }
    }
}

/// The first failing directive of `fmt`, if any.
pub open spec fn format_error(fmt: Seq<char>) -> Option<FormatErrorKind> {
    format_error_from(fmt, 0)
}

proof fn lemma_strftime_from_error(p: DateTimeParts, fmt: Seq<char>, i: int)
    requires
        0 <= i,
    ensures
        match strftime_from(p, fmt, i) {
            Ok(_) => format_error_from(fmt, i) is None,
            Err(e) => format_error_from(fmt, i) == Some(e),
        },
    decreases fmt.len() - i,
{
    if i < fmt.len() {
        if fmt[i] != '%' {
            lemma_strftime_from_error(p, fmt, i + 1);
        } else {
            lemma_scan_directive(fmt, i);
            if let Ok(d) = scan_directive(fmt, i) {
                lemma_strftime_from_error(p, fmt, d.last + 1);
            }
        }
    }
}

/// Whether a format fails, and with which error, does not depend on the
/// date-time being formatted: it fails exactly at its first malformed
/// directive.
pub proof fn law_strftime_error_depends_on_format_only(p: DateTimeParts, fmt: Seq<char>)
    ensures
        match spec_strftime(p, fmt) {
            Ok(_) => format_error(fmt) is None,
            Err(e) => format_error(fmt) == Some(e),
        },
{
    lemma_strftime_from_error(p, fmt, 0);
}

/// Formats `ts` the way Ruby's `Time#strftime` does.
///
/// Errors, and which error, depend on `fmt` alone (see `format_error`); on
/// success the text is `spec_strftime` of the calendar fields of `ts`.
pub fn strftime(ts: time::OffsetDateTime, fmt: &str) -> (r: Result<String, DateFormatError>)
    ensures
        match r {
            Ok(s) => format_error(fmt@) is None && spec_strftime(parts_model(ts), fmt@) == Ok::<
                Seq<char>,
                FormatErrorKind,
            >(s@),
            Err(e) => format_error(fmt@) == Some(e.kind()),
        },
{
    let parts = parts_of(&ts);
    let r = strftime_parts(&parts, fmt);
    proof {
        law_strftime_error_depends_on_format_only(parts, fmt@);
    }
    r
}

/// The text of a format made of the one directive `%c`, for a conversion
/// character that is no flag, width, modifier or colon.
proof fn lemma_lone_directive(p: DateTimeParts, c: char)
    requires
        c != '-' && c != '_' && c != '0' && c != '^' && c != '#' && c != ':',
        c != 'E' && c != 'O',
        !is_digit(c),
    ensures
        spec_strftime(p, seq!['%', c]) == Ok::<Seq<char>, FormatErrorKind>(
            render_directive(
                p,
                seq!['%', c],
                DirectiveModel {
                    use_padding: true,
                    style: PaddingStyle::Default,
                    casing: Casing::Default,
                    width: None,
                    spec: c,
                    with_seconds: false,
                    colon_failed: false,
                    start: 0,
                    last: 1,
                },
            ),
        ),
{
    let fmt = seq!['%', c];
    assert(fmt[0] == '%' && fmt[1] == c && fmt.len() == 2);
    assert(scan_flags(fmt, 1, true, PaddingStyle::Default, Casing::Default) == Some(
        (1int, true, PaddingStyle::Default, Casing::Default),
    ));
    assert(digits_value(fmt.subrange(1, 1)) == 0) by {
        assert(fmt.subrange(1, 1).len() == 0);
    }
    lemma_scan_directive(fmt, 0);
    assert(strftime_from(p, fmt, 2) == Ok::<Seq<char>, FormatErrorKind>(Seq::empty()));
    let d = scan_directive(fmt, 0)->Ok_0;
    assert(render_directive(p, fmt, d) + Seq::<char>::empty() =~= render_directive(p, fmt, d));
}

/// `%u` counts the weekday from Monday as 1 to Sunday as 7, and `%w` counts
/// it from Sunday as 0 to Saturday as 6: each is one digit, `%w` is 0 exactly
/// on a Sunday, and `%w` is `%u` modulo 7 (`weekday` counts days since
/// Monday).
pub proof fn law_weekday_numbers(p: DateTimeParts)
    requires
        p.wf(),
    ensures
        exists|u: char, w: char|
            {
                &&& spec_strftime(p, seq!['%', 'u']) == Ok::<Seq<char>, FormatErrorKind>(seq![u])
                &&& spec_strftime(p, seq!['%', 'w']) == Ok::<Seq<char>, FormatErrorKind>(seq![w])
                &&& '1' <= u <= '7' && '0' <= w <= '6'
                &&& u as int - '0' as int == p.weekday + 1
                &&& (w == '0' <==> p.weekday == 6)
                &&& w as int - '0' as int == (u as int - '0' as int) % 7
            },
{
    lemma_lone_directive(p, 'u');
    lemma_lone_directive(p, 'w');
    let vu = p.weekday + 1;
    let vw = (p.weekday + 1) % 7;
    assert(known_spec('u') && known_spec('w'));
    assert(nat_text(vu as nat) == seq![digit_char(vu as int)]);
    assert(nat_text(vw as nat) == seq![digit_char(vw as int)]);
    assert(int_text(vu as int).len() == 1);
    assert(int_text(vw as int).len() == 1);
    assert(repeat('0', 0 - 1) =~= Seq::<char>::empty());
    let ru = render_directive(
        p,
        seq!['%', 'u'],
        DirectiveModel {
            use_padding: true,
            style: PaddingStyle::Default,
            casing: Casing::Default,
            width: None,
            spec: 'u',
            with_seconds: false,
            colon_failed: false,
            start: 0,
            last: 1,
        },
    );
    let rw = render_directive(
        p,
        seq!['%', 'w'],
        DirectiveModel {
            use_padding: true,
            style: PaddingStyle::Default,
            casing: Casing::Default,
            width: None,
            spec: 'w',
            with_seconds: false,
            colon_failed: false,
            start: 0,
            last: 1,
        },
    );
    assert(ru =~= seq![digit_char(vu as int)]);
    assert(rw =~= seq![digit_char(vw as int)]);
    let u = digit_char(vu as int);
    let w = digit_char(vw as int);
    assert(u as int == vu + 48);
    assert(w as int == vw + 48);
}

/// A number below 100 rendered with the default two places is two decimal
/// digits that read as the number.
proof fn lemma_numeric_two_digits(v: int)
    requires
        0 <= v < 100,
    ensures
        numeric_text(v, 2, true, PaddingStyle::Default, None).len() == 2,
        all_digits(numeric_text(v, 2, true, PaddingStyle::Default, None)),
        digits_value(numeric_text(v, 2, true, PaddingStyle::Default, None)) == v,
{
    let t = numeric_text(v, 2, true, PaddingStyle::Default, None);
    if v < 10 {
        assert(nat_text(v as nat) == seq![digit_char(v)]);
        assert(int_text(v).len() == 1);
        assert(repeat('0', 1) =~= seq!['0']);
        assert(t =~= seq!['0', digit_char(v)]);
    } else {
        assert(nat_text((v / 10) as nat) == seq![digit_char(v / 10)]);
        assert(nat_text(v as nat) =~= seq![digit_char(v / 10), digit_char(v % 10)]);
        assert(int_text(v).len() == 2);
        assert(repeat('0', 0) =~= Seq::<char>::empty());
        assert(t =~= seq![digit_char(v / 10), digit_char(v % 10)]);
    }
    let h = t.drop_last();
    assert(h.len() == 1 && h[0] == t[0]);
    assert(h.drop_last().len() == 0);
    assert(digits_value(h.drop_last()) == 0);
    assert(digits_value(h) == t[0] as int - 48);
}

/// Whether `r` is two decimal digits that read as `v`.
pub open spec fn two_digits_of(r: Result<Seq<char>, FormatErrorKind>, v: int) -> bool {
    r matches Ok(t) && t.len() == 2 && all_digits(t) && digits_value(t) == v
}

/// The two-place numeric directives render their field as two digits:
/// `%U` the week counted from the first Sunday, `%W` from the first Monday,
/// `%m` the month, `%d` the day, `%H` the hour, `%M` the minute and `%S` the
/// second.
pub proof fn law_two_digit_fields(p: DateTimeParts)
    requires
        p.wf(),
    ensures
        two_digits_of(spec_strftime(p, seq!['%', 'U']), p.sunday_week as int),
        two_digits_of(spec_strftime(p, seq!['%', 'W']), p.monday_week as int),
        two_digits_of(spec_strftime(p, seq!['%', 'm']), p.month as int),
        two_digits_of(spec_strftime(p, seq!['%', 'd']), p.day as int),
        two_digits_of(spec_strftime(p, seq!['%', 'H']), p.hour as int),
        two_digits_of(spec_strftime(p, seq!['%', 'M']), p.minute as int),
        two_digits_of(spec_strftime(p, seq!['%', 'S']), p.second as int),
{
    lemma_lone_directive(p, 'U');
    lemma_lone_directive(p, 'W');
    lemma_lone_directive(p, 'm');
    lemma_lone_directive(p, 'd');
    lemma_lone_directive(p, 'H');
    lemma_lone_directive(p, 'M');
    lemma_lone_directive(p, 'S');
    assert(known_spec('U') && known_spec('W') && known_spec('m') && known_spec('d'));
    assert(known_spec('H') && known_spec('M') && known_spec('S'));
    lemma_numeric_two_digits(p.sunday_week as int);
    lemma_numeric_two_digits(p.monday_week as int);
    lemma_numeric_two_digits(p.month as int);
    lemma_numeric_two_digits(p.day as int);
    lemma_numeric_two_digits(p.hour as int);
    lemma_numeric_two_digits(p.minute as int);
    lemma_numeric_two_digits(p.second as int);
}

/// The decimal text of a number is digits that read as the number.
proof fn lemma_nat_text_reads(n: nat)
    ensures
        all_digits(nat_text(n)),
        digits_value(nat_text(n)) == n,
    decreases n,
{
    if n >= 10 {
        lemma_nat_text_reads(n / 10);
        let t = nat_text(n);
        assert(t.drop_last() == nat_text(n / 10));
        assert(t.last() == digit_char((n % 10) as int));
        assert(digit_char((n % 10) as int) as int == (n % 10) + 48);
        assert((n / 10) * 10 + n % 10 == n);
        assert(digits_value(t) == digits_value(t.drop_last()) * 10 + (t.last() as int - 48));
        assert forall|i: int| 0 <= i < t.len() implies is_digit(#[trigger] t[i]) by {
            if i < t.len() - 1 {
                assert(t[i] == nat_text(n / 10)[i]);
            }
        }
    } else {
        let t = nat_text(n);
        assert(t.drop_last().len() == 0);
        assert(digits_value(t.drop_last()) == 0);
        assert(digit_char(n as int) as int == n + 48);
    }
}

/// Leading zeros do not change what digits read as.
proof fn lemma_zeros_prefix(k: int, s: Seq<char>)
    requires
        all_digits(s),
    ensures
        all_digits(repeat('0', k) + s),
        digits_value(repeat('0', k) + s) == digits_value(s),
    decreases s.len(), if k > 0 { k } else { 0 },
{
    let t = repeat('0', k) + s;
    assert forall|i: int| 0 <= i < t.len() implies is_digit(#[trigger] t[i]) by {
        if i >= repeat('0', k).len() {
            assert(t[i] == s[i - repeat('0', k).len()]);
        }
    }
    if s.len() > 0 {
        assert(t.drop_last() =~= repeat('0', k) + s.drop_last());
        assert(t.last() == s.last());
        lemma_zeros_prefix(k, s.drop_last());
    } else if k > 0 {
        assert(t =~= repeat('0', k));
        assert(t.drop_last() =~= repeat('0', k - 1) + Seq::<char>::empty());
        lemma_zeros_prefix(k - 1, s);
    } else {
        assert(t.len() == 0);
    }
}

/// A natural number with at most `def` digits, rendered with the default
/// padding, is `def` digits that read as the number.
proof fn lemma_numeric_padded(v: int, def: nat)
    requires
        0 <= v,
        def >= 1,
        v < pow10(def),
    ensures
        numeric_text(v, def as int, true, PaddingStyle::Default, None).len() == def,
        all_digits(numeric_text(v, def as int, true, PaddingStyle::Default, None)),
        digits_value(numeric_text(v, def as int, true, PaddingStyle::Default, None)) == v,
{
    crate::text::lemma_nat_text_len_bound(v as nat, def);
    lemma_nat_text_reads(v as nat);
    let k = def - nat_text(v as nat).len();
    lemma_zeros_prefix(k, nat_text(v as nat));
    assert(numeric_text(v, def as int, true, PaddingStyle::Default, None) =~= repeat('0', k)
        + nat_text(v as nat));
}

/// Whether `r` is `n` decimal digits that read as `v`.
pub open spec fn digits_of(r: Result<Seq<char>, FormatErrorKind>, n: int, v: int) -> bool {
    r matches Ok(t) && t.len() == n && all_digits(t) && digits_value(t) == v
}

/// `%j` is the day of the year as three digits; `%I` is the hour on a
/// twelve-hour clock, from 1 to 12, as two digits, equal to the hour modulo
/// 12 (12 standing for 0); `%e` is the day of the month as `%d` writes it,
/// with a space in place of a leading zero.
pub proof fn law_ordinal_hour12_and_day(p: DateTimeParts)
    requires
        p.wf(),
    ensures
        digits_of(spec_strftime(p, seq!['%', 'j']), 3, p.ordinal as int),
        exists|h: int|
            1 <= h <= 12 && h % 12 == p.hour % 12 && digits_of(
                spec_strftime(p, seq!['%', 'I']),
                2,
                h,
            ),
        spec_strftime(p, seq!['%', 'e']) matches Ok(e) && spec_strftime(p, seq!['%', 'd'])
            matches Ok(d) && e.len() == 2 && d.len() == 2 && e[1] == d[1] && (e[0] == ' '
            <==> p.day < 10) && (p.day >= 10 ==> e[0] == d[0]),
{
    assert(pow10(1) == 10 && pow10(2) == 100 && pow10(3) == 1000) by {
        reveal_with_fuel(pow10, 4);
    }
    lemma_lone_directive(p, 'j');
    lemma_lone_directive(p, 'I');
    lemma_lone_directive(p, 'e');
    lemma_lone_directive(p, 'd');
    assert(known_spec('j') && known_spec('I') && known_spec('e') && known_spec('d'));
    lemma_numeric_padded(p.ordinal as int, 3);
    let h = hour12(p.hour as int);
    lemma_numeric_padded(h, 2);
    assert(1 <= h <= 12 && h % 12 == p.hour % 12);
    assert(digits_of(spec_strftime(p, seq!['%', 'I']), 2, h));
    lemma_numeric_padded(p.day as int, 2);
    let day = p.day as int;
    let e = numeric_text(day, 2, true, PaddingStyle::Space, None);
    let d = numeric_text(day, 2, true, PaddingStyle::Default, None);
    if day < 10 {
        assert(nat_text(day as nat) == seq![digit_char(day)]);
        assert(repeat(' ', 1) =~= seq![' ']);
        assert(repeat('0', 1) =~= seq!['0']);
        assert(e =~= seq![' ', digit_char(day)]);
        assert(d =~= seq!['0', digit_char(day)]);
    } else {
        assert(nat_text((day / 10) as nat) == seq![digit_char(day / 10)]);
        assert(nat_text(day as nat) =~= seq![digit_char(day / 10), digit_char(day % 10)]);
        assert(repeat(' ', 0) =~= Seq::<char>::empty());
        assert(repeat('0', 0) =~= Seq::<char>::empty());
        assert(e =~= nat_text(day as nat));
        assert(d =~= nat_text(day as nat));
    }
}

/// For a year from 0 to 9999, `%Y` is its four digits, and `%C` and `%y`
/// are two digits each that make it up: century times 100 plus year of the
/// century.
pub proof fn law_year_parts(p: DateTimeParts)
    requires
        p.wf(),
        0 <= p.year <= 9999,
    ensures
        digits_of(spec_strftime(p, seq!['%', 'Y']), 4, p.year as int),
        exists|c: int, y: int|
            0 <= y < 100 && c * 100 + y == p.year && digits_of(
                spec_strftime(p, seq!['%', 'C']),
                2,
                c,
            ) && digits_of(spec_strftime(p, seq!['%', 'y']), 2, y),
{
    assert(pow10(2) == 100 && pow10(4) == 10000) by {
        reveal_with_fuel(pow10, 5);
    }
    lemma_lone_directive(p, 'Y');
    lemma_lone_directive(p, 'C');
    lemma_lone_directive(p, 'y');
    assert(known_spec('Y') && known_spec('C') && known_spec('y'));
    lemma_numeric_padded(p.year as int, 4);
    let c = div100(p.year as int);
    let y = rem100(p.year as int);
    assert(c * 100 + y == p.year && 0 <= c < 100 && 0 <= y < 100);
    lemma_numeric_padded(c, 2);
    lemma_numeric_padded(y, 2);
    assert(digits_of(spec_strftime(p, seq!['%', 'C']), 2, c));
    assert(digits_of(spec_strftime(p, seq!['%', 'y']), 2, y));
}

} // verus!
