//! Character-level string helpers shared by the rest of the library.

use vstd::prelude::*;

verus! {

broadcast use vstd::string::group_string_axioms;

/// Appends one character to a `String` (`String::push`).
///
/// Trusted: the standard library documents that `push` appends the given
/// character to the end of the string.
#[verifier::external_body]
pub(crate) fn push_char(s: &mut String, c: char)
    ensures
        final(s)@ == old(s)@.push(c),
{
    s.push(c)
}

/// Collects the characters of `s` into a vector.
pub fn chars_of(s: &str) -> (v: Vec<char>)
    ensures
        v@ == s@,
{
    let mut v: Vec<char> = Vec::new();
    for c in it: s.chars()
        invariant
            v@ == it.seq().take(it.index() as int),
    {
        v.push(c);
    }
    v
}

/// Builds a `String` holding exactly the characters of `v`.
pub fn string_of(v: &[char]) -> (s: String)
    ensures
        s@ == v@,
{
    let mut s = String::new();
    let mut i: usize = 0;
    while i < v.len()
        invariant
            i <= v@.len(),
            s@ == v@.take(i as int),
        decreases v@.len() - i,
    {
        push_char(&mut s, v[i]);
        i = i + 1;
        assert(v@.take(i as int) =~= v@.take((i - 1) as int).push(v@[i - 1]));
    }
    assert(v@.take(v@.len() as int) =~= v@);
    s
}

/// The decimal digit character for `d` (`0 <= d < 10`).
pub open spec fn digit_char(d: int) -> char {
    (d + 48) as char
}

/// Decimal text of a natural number, most significant digit first.
pub open spec fn nat_text(n: nat) -> Seq<char>
    decreases n,
{
    if n < 10 {
        seq![digit_char(n as int)]
    } else {
        nat_text(n / 10).push(digit_char((n % 10) as int))
    }
}

/// Decimal text of an integer, with a leading `-` for negative values.
pub open spec fn int_text(i: int) -> Seq<char> {
    if i < 0 {
        seq!['-'] + nat_text((-i) as nat)
    } else {
        nat_text(i as nat)
    }
}

/// The character of a decimal digit.
pub fn digit(d: u64) -> (c: char)
    requires
        d < 10,
    ensures
        c == digit_char(d as int),
{
    let b: u8 = 48u8 + (d as u8);
    b as char
}

/// Appends the decimal text of `n`.
pub fn push_nat_text(out: &mut Vec<char>, n: u64)
    ensures
        final(out)@ == old(out)@ + nat_text(n as nat),
    decreases n,
{
    if n >= 10 {
        push_nat_text(out, n / 10);
    }
    out.push(digit(n % 10));
    assert(final(out)@ =~= old(out)@ + nat_text(n as nat));
}

/// Appends the decimal text of `i`.
pub fn push_int_text(out: &mut Vec<char>, i: i64)
    ensures
        final(out)@ == old(out)@ + int_text(i as int),
{
    if i < 0 {
        out.push('-');
        let magnitude: u64 = if i == i64::MIN { 9223372036854775808u64 } else { (-i) as u64 };
        push_nat_text(out, magnitude);
        assert(final(out)@ =~= old(out)@ + int_text(i as int));
    } else {
        push_nat_text(out, i as u64);
    }
}

/// Decimal rendering of an integer.
pub fn int_to_string(i: i64) -> (s: String)
    ensures
        s@ == int_text(i as int),
{
    let mut v: Vec<char> = Vec::new();
    push_int_text(&mut v, i);
    assert(v@ =~= int_text(i as int));
    string_of(v.as_slice())
}

/// Whether `c` is an ASCII decimal digit.
pub open spec fn is_digit(c: char) -> bool {
    '0' <= c && c <= '9'
}

/// Every character of `s` is an ASCII decimal digit.
pub open spec fn all_digits(s: Seq<char>) -> bool {
    forall|i: int| 0 <= i < s.len() ==> is_digit(#[trigger] s[i])
}

/// The value of a string of decimal digits (most significant first).
pub open spec fn digits_value(s: Seq<char>) -> int
    decreases s.len(),
{
    if s.len() == 0 {
        0
    } else {
        digits_value(s.drop_last()) * 10 + (s.last() as int - 48)
    }
}

/// What `str::parse::<i64>` accepts: an optional sign followed by one or
/// more decimal digits whose value fits in an `i64`.
pub open spec fn spec_parse_i64(s: Seq<char>) -> Option<i64> {
    let neg = s.len() > 0 && s[0] == '-';
    let signed = s.len() > 0 && (s[0] == '-' || s[0] == '+');
    let body = if signed { s.drop_first() } else { s };
    let v = if neg { -digits_value(body) } else { digits_value(body) };
    if body.len() > 0 && all_digits(body) && i64::MIN <= v <= i64::MAX {
        Some(v as i64)
    } else {
        None
    }
}

proof fn lemma_digits_value_nonneg(s: Seq<char>)
    requires
        all_digits(s),
    ensures
        digits_value(s) >= 0,
    decreases s.len(),
{
    if s.len() > 0 {
        assert(all_digits(s.drop_last()));
        lemma_digits_value_nonneg(s.drop_last());
        assert(is_digit(s[s.len() - 1]));
    }
}

pub(crate) proof fn lemma_digits_value_prefix(s: Seq<char>, k: int)
    requires
        all_digits(s),
        0 <= k <= s.len(),
    ensures
        digits_value(s.take(k)) <= digits_value(s),
    decreases s.len(),
{
    if k < s.len() {
        assert(all_digits(s.drop_last()));
        lemma_digits_value_prefix(s.drop_last(), k);
        assert(s.drop_last().take(k) =~= s.take(k));
        lemma_digits_value_nonneg(s.drop_last());
        assert(is_digit(s[s.len() - 1]));
    } else {
        assert(s.take(k) =~= s);
    }
}

/// Whether every character of `s[from..]` is an ASCII digit.
fn digits_from(s: &[char], from: usize) -> (r: bool)
    requires
        from <= s@.len(),
    ensures
        r == all_digits(s@.subrange(from as int, s@.len() as int)),
{
    let mut i: usize = from;
    while i < s.len()
        invariant
            from <= i <= s@.len(),
            all_digits(s@.subrange(from as int, i as int)),
        decreases s@.len() - i,
    {
        let c = s[i];
        if !('0' <= c && c <= '9') {
            assert(s@.subrange(from as int, s@.len() as int)[i - from] == c);
            return false;
        }
        i = i + 1;
        assert(s@.subrange(from as int, i as int) =~= s@.subrange(from as int, i - 1).push(c));
    }
    true
}

/// Parses a signed decimal integer the way `str::parse::<i64>` does.
pub fn parse_i64(s: &[char]) -> (r: Option<i64>)
    ensures
        r == spec_parse_i64(s@),
{
    let n = s.len();
    let neg = n > 0 && s[0] == '-';
    let signed = n > 0 && (s[0] == '-' || s[0] == '+');
    let start: usize = if signed { 1 } else { 0 };
    let ghost body = if signed { s@.drop_first() } else { s@ };
    assert(body =~= s@.subrange(start as int, n as int));
    if start >= n {
        return None;
    }
    if !digits_from(s, start) {
        return None;
    }
    let mut acc: i128 = 0;
    let mut i: usize = start;
    while i < n
        invariant
            start <= i <= n,
            n == s@.len(),
            body == s@.subrange(start as int, n as int),
            body == if signed { s@.drop_first() } else { s@ },
            neg == (s@.len() > 0 && s@[0] == '-'),
            signed == (s@.len() > 0 && (s@[0] == '-' || s@[0] == '+')),
            body.len() > 0,
            all_digits(body),
            acc == digits_value(body.take(i - start)),
            0 <= acc <= 9223372036854775808i128,
        decreases n - i,
    {
        let c = s[i];
        assert(body[i - start] == c);
        assert(is_digit(c));
        let d: i128 = (c as u32 - 48u32) as i128;
        let ghost prev = body.take(i - start);
        acc = acc * 10 + d;
        i = i + 1;
        assert(body.take(i - start).drop_last() =~= prev);
        if acc > 9223372036854775808i128 {
            proof {
                lemma_digits_value_prefix(body, i - start);
            }
            return None;
        }
    }
    assert(body.take(n - start) =~= body);
    if neg {
        Some((-acc) as i64)
    } else {
        if acc > 9223372036854775807i128 {
            return None;
        }
        Some(acc as i64)
    }
}

/// Whether two character sequences are equal.
pub fn chars_eq(a: &[char], b: &[char]) -> (r: bool)
    ensures
        r == (a@ == b@),
{
    if a.len() != b.len() {
        return false;
    }
    let mut i: usize = 0;
    while i < a.len()
        invariant
            i <= a@.len(),
            a@.len() == b@.len(),
            forall|j: int| 0 <= j < i ==> a@[j] == b@[j],
        decreases a@.len() - i,
    {
        if a[i] != b[i] {
            return false;
        }
        i = i + 1;
    }
    assert(a@ =~= b@);
    true
}

/// Whether two strings hold the same characters.
pub fn str_eq(a: &str, b: &str) -> (r: bool)
    ensures
        r == (a@ == b@),
{
    let va = chars_of(a);
    let vb = chars_of(b);
    chars_eq(va.as_slice(), vb.as_slice())
}

/// Appends the characters of `s`.
pub fn push_str(out: &mut Vec<char>, s: &str)
    ensures
        final(out)@ == old(out)@ + s@,
{
    let v = chars_of(s);
    push_chars(out, v.as_slice());
}

/// Appends the characters of `s`.
pub fn push_chars(out: &mut Vec<char>, s: &[char])
    ensures
        final(out)@ == old(out)@ + s@,
{
    let ghost start = out@;
    let mut i: usize = 0;
    while i < s.len()
        invariant
            i <= s@.len(),
            out@ == start + s@.take(i as int),
        decreases s@.len() - i,
    {
        out.push(s[i]);
        i = i + 1;
        assert(s@.take(i as int) =~= s@.take(i - 1).push(s@[i - 1]));
    }
    assert(s@.take(s@.len() as int) =~= s@);
}

/// Joins `parts` with `sep` between consecutive parts.
pub open spec fn join(parts: Seq<Seq<char>>, sep: Seq<char>) -> Seq<char>
    decreases parts.len(),
{
    if parts.len() == 0 {
        Seq::empty()
    } else if parts.len() == 1 {
        parts[0]
    } else {
        join(parts.drop_last(), sep) + sep + parts.last()
    }
}

/// The characters of each string.
pub open spec fn strings_model(v: Seq<String>) -> Seq<Seq<char>> {
    v.map_values(|s: String| s@)
}

/// Joins strings with `sep` between consecutive ones.
pub fn join_strings(parts: &Vec<String>, sep: &str) -> (r: String)
    ensures
        r@ == join(strings_model(parts@), sep@),
{
    let ghost ps = strings_model(parts@);
    let mut out: Vec<char> = Vec::new();
    let mut i: usize = 0;
    while i < parts.len()
        invariant
            i <= parts@.len(),
            ps == strings_model(parts@),
            out@ == join(ps.take(i as int), sep@),
        decreases parts@.len() - i,
    {
        if i > 0 {
            push_str(&mut out, sep);
        }
        push_str(&mut out, parts[i].as_str());
        i = i + 1;
        proof {
            let t = ps.take(i as int);
            assert(t.drop_last() =~= ps.take(i - 1));
            if i == 1 {
                assert(ps.take(0) =~= Seq::<Seq<char>>::empty());
                assert(out@ =~= join(t, sep@));
            } else {
                assert(out@ =~= join(t, sep@));
            }
        }
    }
    assert(ps.take(parts@.len() as int) =~= ps);
    string_of(out.as_slice())
}

/// `strings_model` of a pushed sequence.
pub proof fn lemma_strings_model_push(v: Seq<String>, s: String)
    ensures
        strings_model(v.push(s)) == strings_model(v).push(s@),
{
    assert(strings_model(v.push(s)) =~= strings_model(v).push(s@));
}


/// `n` copies of `c` (none when `n` is not positive).
pub open spec fn repeat(c: char, n: int) -> Seq<char> {
    Seq::new(if n > 0 { n as nat } else { 0 }, |_i: int| c)
}

/// An integer zero-padded to `width` characters, the sign first (`{:0width$}`).
pub open spec fn zero_pad(n: int, width: int) -> Seq<char> {
    if n < 0 {
        let d = nat_text((-n) as nat);
        seq!['-'] + repeat('0', width - 1 - d.len()) + d
    } else {
        let d = nat_text(n as nat);
        repeat('0', width - d.len()) + d
    }
}

/// Text right-aligned in `width` characters, filled with spaces (`{:>width$}`).
pub open spec fn right_align(t: Seq<char>, width: int) -> Seq<char> {
    repeat(' ', width - t.len()) + t
}

/// Appends `n` copies of `c`.
pub fn push_repeat(out: &mut Vec<char>, c: char, n: usize)
    ensures
        final(out)@ == old(out)@ + repeat(c, n as int),
{
    let ghost start = out@;
    let mut i: usize = 0;
    while i < n
        invariant
            i <= n,
            out@ == start + repeat(c, i as int),
        decreases n - i,
    {
        out.push(c);
        i = i + 1;
        assert(repeat(c, i as int) =~= repeat(c, (i - 1) as int).push(c));
    }
}

/// `10^k`.
pub open spec fn pow10(k: nat) -> nat
    decreases k,
{
    if k == 0 {
        1
    } else {
        10 * pow10((k - 1) as nat)
    }
}

/// A number below `10^k` has at most `k` digits.
pub proof fn lemma_nat_text_len_bound(n: nat, k: nat)
    requires
        k >= 1,
        n < pow10(k),
    ensures
        1 <= nat_text(n).len() <= k,
    decreases n,
{
    if n >= 10 {
        let k1 = (k - 1) as nat;
        let p = pow10(k1);
        assert(k1 >= 1) by {
            if k1 == 0 {
                assert(pow10(1) == 10) by {
                    reveal_with_fuel(pow10, 2);
                }
            }
        }
        assert(n / 10 < p) by (nonlinear_arith)
            requires
                n < 10 * p,
        ;
        lemma_nat_text_len_bound(n / 10, k1);
    }
}

/// Number of decimal digits of `n`.
pub fn decimal_len(n: u64) -> (r: usize)
    ensures
        r == nat_text(n as nat).len(),
        1 <= r <= 20,
    decreases n,
{
    proof {
        assert(pow10(20) == 100000000000000000000nat) by {
            reveal_with_fuel(pow10, 21);
        }
        lemma_nat_text_len_bound(n as nat, 20);
    }
    if n < 10 {
        1
    } else {
        let r = decimal_len(n / 10);
        r + 1
    }
}

/// `|i|` as an unsigned integer.
pub fn magnitude(i: i64) -> (r: u64)
    ensures
        r as int == if i < 0 { -i } else { i as int },
{
    if i < 0 {
        if i == i64::MIN { 9223372036854775808u64 } else { (-i) as u64 }
    } else {
        i as u64
    }
}

/// Appends `n` zero-padded to `width` characters (`{:0width$}`).
pub fn push_zero_padded(out: &mut Vec<char>, n: i64, width: usize)
    ensures
        final(out)@ == old(out)@ + zero_pad(n as int, width as int),
{
    let ghost start = out@;
    let m = magnitude(n);
    let len = decimal_len(m);
    if n < 0 {
        out.push('-');
        let fill: usize = if width > len + 1 { width - len - 1 } else { 0 };
        push_repeat(out, '0', fill);
        push_nat_text(out, m);
        assert(repeat('0', fill as int) =~= repeat('0', width - 1 - len));
    } else {
        let fill: usize = if width > len { width - len } else { 0 };
        push_repeat(out, '0', fill);
        push_nat_text(out, m);
        assert(repeat('0', fill as int) =~= repeat('0', width - len));
    }
    assert(out@ =~= start + zero_pad(n as int, width as int));
}

/// Appends `n` right-aligned in `width` characters (`{:>width$}`).
pub fn push_right_aligned(out: &mut Vec<char>, n: i64, width: usize)
    ensures
        final(out)@ == old(out)@ + right_align(int_text(n as int), width as int),
{
    let ghost start = out@;
    let m = magnitude(n);
    let len0 = decimal_len(m);
    let len: usize = if n < 0 { len0 + 1 } else { len0 };
    assert(len == int_text(n as int).len());
    let fill: usize = if width > len { width - len } else { 0 };
    push_repeat(out, ' ', fill);
    assert(repeat(' ', fill as int) =~= repeat(' ', width - len));
    push_int_text(out, n);
    assert(out@ =~= start + right_align(int_text(n as int), width as int));
}

/// ASCII upper case of one character.
pub open spec fn upper_char(c: char) -> char {
    if 'a' <= c && c <= 'z' {
        ((c as u32) - 32) as char
    } else {
        c
    }
}

/// ASCII upper case of every character (`make_ascii_uppercase`).
pub open spec fn ascii_upper(s: Seq<char>) -> Seq<char> {
    s.map_values(|c: char| upper_char(c))
}

/// ASCII upper case of one character.
pub fn to_upper_char(c: char) -> (r: char)
    ensures
        r == upper_char(c),
{
    if 'a' <= c && c <= 'z' {
        let b: u8 = (c as u8) - 32;
        b as char
    } else {
        c
    }
}

/// Upper-cases, in place, every ASCII letter from position `from` on.
pub fn upper_from(out: &mut Vec<char>, from: usize)
    requires
        from <= old(out)@.len(),
    ensures
        final(out)@ == old(out)@.take(from as int) + ascii_upper(old(out)@.skip(from as int)),
{
    let ghost start = out@;
    let mut i: usize = from;
    while i < out.len()
        invariant
            from <= i <= out@.len(),
            out@.len() == start.len(),
            forall|j: int| 0 <= j < from ==> out@[j] == start[j],
            forall|j: int| from <= j < i ==> out@[j] == upper_char(start[j]),
            forall|j: int| i <= j < out@.len() ==> out@[j] == start[j],
        decreases out@.len() - i,
    {
        let c = out[i];
        let u = to_upper_char(c);
        out.set(i, u);
        i = i + 1;
    }
    assert(out@ =~= start.take(from as int) + ascii_upper(start.skip(from as int)));
}

} // verus!
