//! Searching, trimming and splitting text, character by character.

use vstd::prelude::*;

verus! {

/// `pat` occurs in `s` at position `i`.
pub open spec fn occurs_at(s: Seq<char>, pat: Seq<char>, i: int) -> bool {
    0 <= i && i + pat.len() <= s.len() && s.subrange(i, i + pat.len()) == pat
}

/// The first position at or after `i` where `pat` occurs in `s`.
pub open spec fn find_from(s: Seq<char>, pat: Seq<char>, i: int) -> Option<int>
    decreases s.len() + 1 - i,
    when 0 <= i
{
    if i + pat.len() > s.len() {
        None
    } else if occurs_at(s, pat, i) {
        Some(i)
    } else {
        find_from(s, pat, i + 1)
    }
}

/// The first position where `pat` occurs in `s`.
pub open spec fn find(s: Seq<char>, pat: Seq<char>) -> Option<int> {
    find_from(s, pat, 0)
}

/// Whether `pat` occurs in `s`.
pub open spec fn contains(s: Seq<char>, pat: Seq<char>) -> bool {
    find(s, pat) is Some
}

/// Whether `s` starts with `p`.
pub open spec fn starts_with(s: Seq<char>, p: Seq<char>) -> bool {
    p.len() <= s.len() && s.take(p.len() as int) == p
}

/// Unicode white space (`char::is_whitespace`).
pub open spec fn is_ws(c: char) -> bool {
    ('\t' <= c && c <= '\r') || c == ' ' || c == '\u{85}' || c == '\u{A0}' || c == '\u{1680}' || (
    '\u{2000}' <= c && c <= '\u{200A}') || c == '\u{2028}' || c == '\u{2029}' || c == '\u{202F}'
        || c == '\u{205F}' || c == '\u{3000}'
}

/// `s` without leading white space.
pub open spec fn trim_start(s: Seq<char>) -> Seq<char>
    decreases s.len(),
{
    if s.len() > 0 && is_ws(s[0]) {
        trim_start(s.drop_first())
    } else {
        s
    }
}

/// `s` without trailing white space.
pub open spec fn trim_end(s: Seq<char>) -> Seq<char>
    decreases s.len(),
{
    if s.len() > 0 && is_ws(s.last()) {
        trim_end(s.drop_last())
    } else {
        s
    }
}

/// `s` without leading and trailing white space.
pub open spec fn trim(s: Seq<char>) -> Seq<char> {
    trim_end(trim_start(s))
}

/// A line without the `\r` of a `\r\n` ending.
pub open spec fn strip_cr(line: Seq<char>) -> Seq<char> {
    if line.len() > 0 && line.last() == '\r' {
        line.drop_last()
    } else {
        line
    }
}

/// The lines of `s` (`str::lines`): split at `\n`, a `\r` before it
/// dropped, no empty line after a final `\n`.
pub open spec fn lines_of(s: Seq<char>) -> Seq<Seq<char>>
    decreases s.len(),
{
    if s.len() == 0 {
        Seq::empty()
    } else {
        match find(s, seq!['\n']) {
            None => seq![s],
            Some(k) => {
                proof {
                    lemma_find_bounds(s, seq!['\n'], 0);
                }
                seq![strip_cr(s.take(k))] + lines_of(s.skip(k + 1))
            },
        }
    }
}

/// Trimming never lengthens a string.
pub proof fn lemma_trim_len(s: Seq<char>)
    ensures
        trim_start(s).len() <= s.len(),
        trim(s).len() <= s.len(),
{
    lemma_trim_start_len(s);
    lemma_trim_end_len(trim_start(s));
}

proof fn lemma_trim_start_len(s: Seq<char>)
    ensures
        trim_start(s).len() <= s.len(),
    decreases s.len(),
{
    if s.len() > 0 && is_ws(s[0]) {
        lemma_trim_start_len(s.drop_first());
    }
}

proof fn lemma_trim_end_len(s: Seq<char>)
    ensures
        trim_end(s).len() <= s.len(),
    decreases s.len(),
{
    if s.len() > 0 && is_ws(s.last()) {
        lemma_trim_end_len(s.drop_last());
    }
}

/// A match found by `find_from` lies in `s`, at or after `i`, and no match
/// lies between `i` and it.
pub proof fn lemma_find_bounds(s: Seq<char>, pat: Seq<char>, i: int)
    requires
        0 <= i,
    ensures
        find_from(s, pat, i) matches Some(k) ==> i <= k && k + pat.len() <= s.len() && occurs_at(
            s,
            pat,
            k,
        ),
        find_from(s, pat, i) matches Some(k) ==> forall|j: int| i <= j < k ==> !occurs_at(s, pat, j),
        find_from(s, pat, i) is None ==> forall|j: int| i <= j ==> !occurs_at(s, pat, j),
    decreases s.len() + 1 - i,
{
    if i + pat.len() <= s.len() && !occurs_at(s, pat, i) {
        lemma_find_bounds(s, pat, i + 1);
    }
}

/// The first position at or after `from` where `pat` occurs in `s`.
pub fn find_chars(s: &[char], pat: &[char], from: usize) -> (r: Option<usize>)
    ensures
        match r {
            Some(k) => find_from(s@, pat@, from as int) == Some(k as int),
            None => find_from(s@, pat@, from as int) is None,
        },
{
    let n = s.len();
    let m = pat.len();
    if from > n {
        return None;
    }
    let mut i = from;
    while n - i >= m
        invariant
            from <= i <= n,
            n == s@.len(),
            m == pat@.len(),
            find_from(s@, pat@, from as int) == find_from(s@, pat@, i as int),
        decreases n + 1 - i,
    {
        let mut j: usize = 0;
        let mut same = true;
        assert(s@.subrange(i as int, i as int) =~= pat@.take(0));
        while j < m
            invariant
                j <= m,
                i + m <= n,
                n == s@.len(),
                m == pat@.len(),
                same == (s@.subrange(i as int, i + j) == pat@.take(j as int)),
            decreases m - j,
        {
            if same && s[i + j] != pat[j] {
                same = false;
                assert(s@.subrange(i as int, i + j + 1)[j as int] != pat@.take(j + 1)[j as int]);
            } else if same {
                assert(s@.subrange(i as int, i + j + 1) =~= s@.subrange(i as int, i + j).push(
                    s@[i + j],
                ));
                assert(pat@.take(j + 1) =~= pat@.take(j as int).push(pat@[j as int]));
            } else {
                assert(s@.subrange(i as int, i + j + 1).take(j as int) =~= s@.subrange(
                    i as int,
                    i + j,
                ));
                assert(pat@.take(j + 1).take(j as int) =~= pat@.take(j as int));
            }
            j = j + 1;
        }
        assert(pat@.take(m as int) =~= pat@);
        if same {
            return Some(i);
        }
        if m == 0 {
            assert(s@.subrange(i as int, i as int) =~= pat@);
        }
        i = i + 1;
    }
    None
}

/// The first position where `pat` occurs in `s`, counted in characters.
pub fn str_find(s: &str, pat: &str) -> (r: Option<usize>)
    ensures
        match r {
            Some(k) => find(s@, pat@) == Some(k as int),
            None => find(s@, pat@) is None,
        },
{
    let a = crate::text::chars_of(s);
    let b = crate::text::chars_of(pat);
    find_chars(a.as_slice(), b.as_slice(), 0)
}

/// Whether `pat` occurs in `s`.
pub fn str_contains(s: &str, pat: &str) -> (r: bool)
    ensures
        r == contains(s@, pat@),
{
    str_find(s, pat).is_some()
}

/// Whether `s` starts with `p`.
pub fn chars_start_with(s: &[char], p: &[char]) -> (r: bool)
    ensures
        r == starts_with(s@, p@),
{
    if p.len() > s.len() {
        return false;
    }
    let mut j: usize = 0;
    while j < p.len()
        invariant
            j <= p@.len(),
            p@.len() <= s@.len(),
            forall|k: int| 0 <= k < j ==> s@[k] == p@[k],
        decreases p@.len() - j,
    {
        if s[j] != p[j] {
            assert(s@.take(p@.len() as int)[j as int] != p@[j as int]);
            return false;
        }
        j = j + 1;
    }
    assert(s@.take(p@.len() as int) =~= p@);
    true
}

/// Whether `s` starts with `p`.
pub fn str_starts_with(s: &str, p: &str) -> (r: bool)
    ensures
        r == starts_with(s@, p@),
{
    let a = crate::text::chars_of(s);
    let b = crate::text::chars_of(p);
    chars_start_with(a.as_slice(), b.as_slice())
}

/// Unicode white space.
pub fn is_whitespace(c: char) -> (r: bool)
    ensures
        r == is_ws(c),
{
    ('\t' <= c && c <= '\r') || c == ' ' || c == '\u{85}' || c == '\u{A0}' || c == '\u{1680}' || (
    '\u{2000}' <= c && c <= '\u{200A}') || c == '\u{2028}' || c == '\u{2029}' || c == '\u{202F}'
        || c == '\u{205F}' || c == '\u{3000}'
}

/// `s[from..to]`.
pub fn slice_chars(s: &[char], from: usize, to: usize) -> (r: Vec<char>)
    requires
        from <= to <= s@.len(),
    ensures
        r@ == s@.subrange(from as int, to as int),
{
    let mut v: Vec<char> = Vec::new();
    let mut i = from;
    while i < to
        invariant
            from <= i <= to,
            to <= s@.len(),
            v@ == s@.subrange(from as int, i as int),
        decreases to - i,
    {
        v.push(s[i]);
        i = i + 1;
        assert(v@ =~= s@.subrange(from as int, i as int));
    }
    v
}

proof fn lemma_trim_start_skip(s: Seq<char>, i: int)
    requires
        0 <= i <= s.len(),
        forall|j: int| 0 <= j < i ==> is_ws(s[j]),
    ensures
        trim_start(s) == trim_start(s.skip(i)),
    decreases i,
{
    if i > 0 {
        assert(s.drop_first().skip(i - 1) =~= s.skip(i));
        lemma_trim_start_skip(s.drop_first(), i - 1);
    } else {
        assert(s.skip(0) =~= s);
    }
}

proof fn lemma_trim_end_take(s: Seq<char>, k: int)
    requires
        0 <= k <= s.len(),
        forall|j: int| k <= j < s.len() ==> is_ws(s[j]),
    ensures
        trim_end(s) == trim_end(s.take(k)),
    decreases s.len() - k,
{
    if k < s.len() {
        assert(s.drop_last().take(k) =~= s.take(k));
        lemma_trim_end_take(s.drop_last(), k);
    } else {
        assert(s.take(k) =~= s);
    }
}

/// `s` without leading white space.
pub fn trim_start_chars(s: &[char]) -> (r: Vec<char>)
    ensures
        r@ == trim_start(s@),
{
    let mut i: usize = 0;
    while i < s.len() && is_whitespace(s[i])
        invariant
            i <= s@.len(),
            forall|j: int| 0 <= j < i ==> is_ws(s@[j]),
        decreases s@.len() - i,
    {
        i = i + 1;
    }
    proof {
        lemma_trim_start_skip(s@, i as int);
        assert(s@.skip(i as int) =~= s@.subrange(i as int, s@.len() as int));
    }
    slice_chars(s, i, s.len())
}

/// `s` without leading and trailing white space.
pub fn trim_chars(s: &[char]) -> (r: Vec<char>)
    ensures
        r@ == trim(s@),
{
    let t = trim_start_chars(s);
    let mut k: usize = t.len();
    while k > 0 && is_whitespace(t[k - 1])
        invariant
            k <= t@.len(),
            forall|j: int| k <= j < t@.len() ==> is_ws(t@[j]),
        decreases k,
    {
        k = k - 1;
    }
    proof {
        lemma_trim_end_take(t@, k as int);
        assert(t@.take(k as int) =~= t@.subrange(0, k as int));
    }
    slice_chars(t.as_slice(), 0, k)
}

/// The lines of `s` (`str::lines`).
pub fn lines(s: &str) -> (r: Vec<Vec<char>>)
    ensures
        r@.map_values(|l: Vec<char>| l@) == lines_of(s@),
{
    let c = crate::text::chars_of(s);
    let n = c.len();
    let mut out: Vec<Vec<char>> = Vec::new();
    let mut start: usize = 0;
    let nl: [char; 1] = ['\n'];
    assert(nl@ =~= seq!['\n']);
    assert(c@.skip(0) =~= c@);
    while start < n
        invariant
            start <= n,
            n == c@.len(),
            c@ == s@,
            nl@ == seq!['\n'],
            lines_of(c@) == out@.map_values(|l: Vec<char>| l@) + lines_of(c@.skip(start as int)),
        decreases n - start,
    {
        let ghost rest = c@.skip(start as int);
        match find_chars(c.as_slice(), nl.as_slice(), start) {
            None => {
                proof {
                    assert forall|j: int| 0 <= j implies !occurs_at(rest, seq!['\n'], j) by {
                        lemma_find_bounds(c@, seq!['\n'], start as int);
                        if occurs_at(rest, seq!['\n'], j) {
                            assert(rest.subrange(j, j + 1) =~= c@.subrange(start + j, start + j + 1));
                            assert(occurs_at(c@, seq!['\n'], start + j));
                        }
                    }
                    lemma_find_none(rest, seq!['\n']);
                }
                let line = slice_chars(c.as_slice(), start, n);
                let ghost before = out@;
                out.push(line);
                proof {
                    assert(rest =~= c@.subrange(start as int, n as int));
                    assert(out@.map_values(|l: Vec<char>| l@) =~= before.map_values(
                        |l: Vec<char>| l@,
                    ).push(rest));
                    assert(c@.skip(n as int).len() == 0);
                    assert(lines_of(rest) == seq![rest]);
                    assert(out@.map_values(|l: Vec<char>| l@) + lines_of(c@.skip(n as int))
                        =~= before.map_values(|l: Vec<char>| l@) + lines_of(rest));
                }
                start = n;
            },
            Some(k) => {
                proof {
                    lemma_find_bounds(c@, seq!['\n'], start as int);
                    lemma_find_shift(c@, seq!['\n'], start as int, k as int);
                }
                let mut end = k;
                if end > start && c[end - 1] == '\r' {
                    end = end - 1;
                }
                let line = slice_chars(c.as_slice(), start, end);
                let ghost before = out@;
                out.push(line);
                proof {
                    let kk = k - start;
                    assert(find(rest, seq!['\n']) == Some(kk));
                    assert(rest.take(kk) =~= c@.subrange(start as int, k as int));
                    assert(strip_cr(rest.take(kk)) =~= c@.subrange(start as int, end as int));
                    assert(rest.skip(kk + 1) =~= c@.skip(k + 1));
                    assert(lines_of(rest) == seq![strip_cr(rest.take(kk))] + lines_of(
                        rest.skip(kk + 1),
                    ));
                    assert(out@.map_values(|l: Vec<char>| l@) =~= before.map_values(
                        |l: Vec<char>| l@,
                    ).push(c@.subrange(start as int, end as int)));
                    assert(out@.map_values(|l: Vec<char>| l@) + lines_of(c@.skip(k + 1))
                        =~= before.map_values(|l: Vec<char>| l@) + lines_of(rest));
                }
                start = k + 1;
            },
        }
    }
    assert(out@.map_values(|l: Vec<char>| l@) + lines_of(c@.skip(n as int)) =~= out@.map_values(
        |l: Vec<char>| l@,
    ));
    out
}

/// No match anywhere means `find` fails.
proof fn lemma_find_none(s: Seq<char>, pat: Seq<char>)
    requires
        forall|j: int| 0 <= j ==> !occurs_at(s, pat, j),
    ensures
        find(s, pat) is None,
{
    lemma_find_none_from(s, pat, 0);
}

proof fn lemma_find_none_from(s: Seq<char>, pat: Seq<char>, i: int)
    requires
        0 <= i,
        forall|j: int| i <= j ==> !occurs_at(s, pat, j),
    ensures
        find_from(s, pat, i) is None,
    decreases s.len() + 1 - i,
{
    if i + pat.len() <= s.len() {
        lemma_find_none_from(s, pat, i + 1);
    }
}

/// A match found from `i` in `s` is the first match of `s[i..]`.
proof fn lemma_find_shift(s: Seq<char>, pat: Seq<char>, i: int, k: int)
    requires
        0 <= i <= s.len(),
        find_from(s, pat, i) == Some(k),
    ensures
        find(s.skip(i), pat) == Some(k - i),
{
    lemma_find_bounds(s, pat, i);
    let t = s.skip(i);
    assert forall|j: int| 0 <= j < k - i implies !occurs_at(t, pat, j) by {
        if occurs_at(t, pat, j) {
            assert(t.subrange(j, j + pat.len()) =~= s.subrange(i + j, i + j + pat.len()));
            assert(occurs_at(s, pat, i + j));
        }
    }
    assert(t.subrange(k - i, k - i + pat.len()) =~= s.subrange(k, k + pat.len()));
    lemma_find_first(t, pat, 0, k - i);
}

/// When `pat` occurs at `k` and nowhere in `[i, k)`, the search from `i`
/// finds `k`.
proof fn lemma_find_first(s: Seq<char>, pat: Seq<char>, i: int, k: int)
    requires
        0 <= i <= k,
        occurs_at(s, pat, k),
        forall|j: int| i <= j < k ==> !occurs_at(s, pat, j),
    ensures
        find_from(s, pat, i) == Some(k),
    decreases k - i,
{
    if i < k {
        lemma_find_first(s, pat, i + 1, k);
    }
}

} // verus!
