//! Character-sequence helpers with exact specifications.
//!
//! Strings are modelled by their view, a `Seq<char>`. The executable helpers
//! work on `Vec<char>` and convert at the edges.

use vstd::prelude::*;

verus! {

// ---------------------------------------------------------------------
// Specifications
// ---------------------------------------------------------------------

/// `pat` occurs in `s` starting at index `i`.
pub open spec fn occurs_at(s: Seq<char>, pat: Seq<char>, i: int) -> bool {
    0 <= i && i + pat.len() <= s.len() && s.subrange(i, i + pat.len()) == pat
}

/// `pat` occurs somewhere in `s`.
pub open spec fn contains(s: Seq<char>, pat: Seq<char>) -> bool {
    exists|i: int| occurs_at(s, pat, i)
}

pub open spec fn starts_with(s: Seq<char>, pat: Seq<char>) -> bool {
    occurs_at(s, pat, 0)
}

pub open spec fn ends_with(s: Seq<char>, pat: Seq<char>) -> bool {
    occurs_at(s, pat, s.len() - pat.len())
}

/// The same character sequence with every character replaced by `b` where it is `a`.
pub open spec fn replace_char(s: Seq<char>, a: char, b: char) -> Seq<char> {
    s.map_values(|c: char| if c == a { b } else { c })
}

/// Left-to-right, non-overlapping replacement of every occurrence of a
/// non-empty pattern, as `str::replace` does.
pub open spec fn replace_all(s: Seq<char>, pat: Seq<char>, rep: Seq<char>) -> Seq<char>
    decreases s.len(),
{
    if pat.len() == 0 || s.len() == 0 {
        s
    } else if starts_with(s, pat) {
        rep + replace_all(s.skip(pat.len() as int), pat, rep)
    } else {
        seq![s[0]] + replace_all(s.skip(1), pat, rep)
    }
}

/// Unicode `White_Space`, the property used by `char::is_whitespace`.
pub open spec fn is_ws(c: char) -> bool {
    ||| c == '\t' || c == '\n' || c == '\u{0B}' || c == '\u{0C}' || c == '\r' || c == ' '
    ||| c == '\u{85}' || c == '\u{A0}' || c == '\u{1680}'
    ||| ('\u{2000}' <= c && c <= '\u{200A}')
    ||| c == '\u{2028}' || c == '\u{2029}' || c == '\u{202F}' || c == '\u{205F}' || c == '\u{3000}'
}

pub open spec fn trim_start(s: Seq<char>) -> Seq<char>
    decreases s.len(),
{
    if s.len() > 0 && is_ws(s[0]) { trim_start(s.drop_first()) } else { s }
}

pub open spec fn trim_end(s: Seq<char>) -> Seq<char>
    decreases s.len(),
{
    if s.len() > 0 && is_ws(s.last()) { trim_end(s.drop_last()) } else { s }
}

/// `str::trim`.
pub open spec fn trim(s: Seq<char>) -> Seq<char> {
    trim_end(trim_start(s))
}

/// `str::trim_end_matches(c)` for a single character.
pub open spec fn trim_end_char(s: Seq<char>, c: char) -> Seq<char>
    decreases s.len(),
{
    if s.len() > 0 && s.last() == c { trim_end_char(s.drop_last(), c) } else { s }
}

/// `str::trim_start_matches(c)` for a single character.
pub open spec fn trim_start_char(s: Seq<char>, c: char) -> Seq<char>
    decreases s.len(),
{
    if s.len() > 0 && s[0] == c { trim_start_char(s.drop_first(), c) } else { s }
}

pub open spec fn ascii_lower_char(c: char) -> char {
    if 'A' <= c && c <= 'Z' { ((c as u32) + 32) as char } else { c }
}

/// `str::to_ascii_lowercase`.
pub open spec fn ascii_lower(s: Seq<char>) -> Seq<char> {
    s.map_values(|c: char| ascii_lower_char(c))
}

/// Decimal digits of a natural number, without leading zeros ("0" for zero).
pub open spec fn decimal(n: nat) -> Seq<char>
    decreases n,
{
    if n < 10 {
        seq![digit_char(n)]
    } else {
        decimal(n / 10) + seq![digit_char(n % 10)]
    }
}

pub open spec fn digit_char(d: nat) -> char {
    (('0' as nat) + d) as char
}

// ---------------------------------------------------------------------
// Conversions between `str`/`String` and `Vec<char>`
// ---------------------------------------------------------------------

/// Appends one character; `String::push`.
#[verifier::external_body]
pub(crate) fn push_char(s: &mut String, c: char)
    ensures
        final(s)@ == old(s)@.push(c),
{
    s.push(c);
}

/// The characters of a string slice, in order.
pub fn chars_of(s: &str) -> (v: Vec<char>)
    ensures
        v@ == s@,
{
    let n = s.unicode_len();
    let mut v: Vec<char> = Vec::new();
    let mut i: usize = 0;
    while i < n
        invariant
            n == s@.len(),
            i <= n,
            v@ == s@.take(i as int),
        decreases n - i,
    {
        let c = s.get_char(i);
        v.push(c);
        i = i + 1;
        assert(v@ =~= s@.take(i as int));
    }
    assert(v@ =~= s@);
    v
}

/// Appends characters to a string.
pub fn push_chars(s: &mut String, v: &[char])
    ensures
        final(s)@ == old(s)@ + v@,
{
    let mut i: usize = 0;
    while i < v.len()
        invariant
            i <= v@.len(),
            s@ == old(s)@ + v@.take(i as int),
        decreases v.len() - i,
    {
        push_char(s, v[i]);
        i = i + 1;
        assert(s@ =~= old(s)@ + v@.take(i as int));
    }
    assert(v@.take(v@.len() as int) =~= v@);
}

/// A string holding exactly the given characters.
pub fn string_of(v: &[char]) -> (s: String)
    ensures
        s@ == v@,
{
    let mut s = String::new();
    push_chars(&mut s, v);
    assert(s@ =~= v@);
    s
}

} // verus!

verus! {

// ---------------------------------------------------------------------
// Searching
// ---------------------------------------------------------------------

/// Whether `pat` occurs in `s` at index `i`.
pub fn occurs_at_exec(s: &[char], pat: &[char], i: usize) -> (b: bool)
    ensures
        b == occurs_at(s@, pat@, i as int),
{
    if pat.len() > s.len() || i > s.len() - pat.len() {
        return false;
    }
    let mut k: usize = 0;
    while k < pat.len()
        invariant
            i + pat@.len() <= s@.len(),
            s@.len() == s.len(),
            k <= pat@.len(),
            forall|j: int| 0 <= j < k ==> s@[i + j] == pat@[j],
        decreases pat.len() - k,
    {
        if s[i + k] != pat[k] {
            assert(s@.subrange(i as int, i + pat@.len())[k as int] != pat@[k as int]);
            return false;
        }
        k = k + 1;
    }
    assert(s@.subrange(i as int, i + pat@.len()) =~= pat@);
    true
}

/// Index of the first occurrence of `pat` in `s`.
pub fn find_first(s: &[char], pat: &[char]) -> (r: Option<usize>)
    ensures
        match r {
            Some(i) => occurs_at(s@, pat@, i as int) && forall|j: int|
                0 <= j < i ==> !occurs_at(s@, pat@, j),
            None => !contains(s@, pat@),
        },
{
    if pat.len() > s.len() {
        return None;
    }
    let last = s.len() - pat.len();
    let mut i: usize = 0;
    loop
        invariant
            last == s@.len() - pat@.len(),
            i <= last,
            forall|j: int| 0 <= j < i ==> !occurs_at(s@, pat@, j),
        decreases last - i,
    {
        if occurs_at_exec(s, pat, i) {
            return Some(i);
        }
        if i == last {
            return None;
        }
        i = i + 1;
    }
}

/// Index of the last occurrence of the character `c`.
pub fn rfind_char(s: &[char], c: char) -> (r: Option<usize>)
    ensures
        match r {
            Some(i) => i < s@.len() && s@[i as int] == c && forall|j: int|
                i < j < s@.len() ==> s@[j] != c,
            None => forall|j: int| 0 <= j < s@.len() ==> s@[j] != c,
        },
{
    let mut i: usize = s.len();
    while i > 0
        invariant
            i <= s@.len(),
            forall|j: int| i <= j < s@.len() ==> s@[j] != c,
        decreases i,
    {
        if s[i - 1] == c {
            return Some(i - 1);
        }
        i = i - 1;
    }
    None
}

/// Whether `pat` occurs somewhere in `s`.
pub fn contains_exec(s: &[char], pat: &[char]) -> (b: bool)
    ensures
        b == contains(s@, pat@),
{
    match find_first(s, pat) {
        Some(_) => true,
        None => false,
    }
}

pub fn starts_with_exec(s: &[char], pat: &[char]) -> (b: bool)
    ensures
        b == starts_with(s@, pat@),
{
    occurs_at_exec(s, pat, 0)
}

pub fn ends_with_exec(s: &[char], pat: &[char]) -> (b: bool)
    ensures
        b == ends_with(s@, pat@),
{
    if pat.len() > s.len() {
        return false;
    }
    occurs_at_exec(s, pat, s.len() - pat.len())
}

/// `contains` on string slices.
pub fn str_contains(s: &str, pat: &str) -> (b: bool)
    ensures
        b == contains(s@, pat@),
{
    let sv = chars_of(s);
    let pv = chars_of(pat);
    contains_exec(sv.as_slice(), pv.as_slice())
}

// ---------------------------------------------------------------------
// Replacement
// ---------------------------------------------------------------------

proof fn lemma_skip_skip(s: Seq<char>, a: int, b: int)
    requires
        0 <= a,
        0 <= b,
        a + b <= s.len(),
    ensures
        s.skip(a).skip(b) == s.skip(a + b),
{
    assert(s.skip(a).skip(b) =~= s.skip(a + b));
}

/// `str::replace` for a non-empty pattern.
pub fn replace_all_exec(s: &[char], pat: &[char], rep: &[char]) -> (r: Vec<char>)
    requires
        pat@.len() > 0,
    ensures
        r@ == replace_all(s@, pat@, rep@),
{
    let mut out: Vec<char> = Vec::new();
    let mut i: usize = 0;
    assert(s@.skip(0) =~= s@);
    while i < s.len()
        invariant
            pat@.len() > 0,
            i <= s@.len(),
            replace_all(s@, pat@, rep@) == out@ + replace_all(s@.skip(i as int), pat@, rep@),
        decreases s.len() - i,
    {
        let ghost rest = s@.skip(i as int);
        let ghost out0 = out@;
        if occurs_at_exec(s, pat, i) {
            assert(starts_with(rest, pat@)) by {
                assert(rest.subrange(0, pat@.len() as int) =~= s@.subrange(
                    i as int,
                    i + pat@.len(),
                ));
            }
            let mut k: usize = 0;
            while k < rep.len()
                invariant
                    k <= rep@.len(),
                    out@ == out0 + rep@.take(k as int),
                decreases rep.len() - k,
            {
                out.push(rep[k]);
                k = k + 1;
                assert(out@ =~= out0 + rep@.take(k as int));
            }
            proof {
                assert(rep@.take(rep@.len() as int) =~= rep@);
                lemma_skip_skip(s@, i as int, pat@.len() as int);
                assert(out@ + replace_all(s@.skip(i + pat@.len()), pat@, rep@) =~= out0 + (
                rep@ + replace_all(rest.skip(pat@.len() as int), pat@, rep@)));
            }
            i = i + pat.len();
        } else {
            assert(!starts_with(rest, pat@)) by {
                if starts_with(rest, pat@) {
                    assert(rest.subrange(0, pat@.len() as int) =~= s@.subrange(
                        i as int,
                        i + pat@.len(),
                    ));
                }
            }
            out.push(s[i]);
            proof {
                lemma_skip_skip(s@, i as int, 1);
                assert(rest[0] == s@[i as int]);
                assert(out@ + replace_all(s@.skip(i + 1), pat@, rep@) =~= out0 + (seq![rest[0]]
                    + replace_all(rest.skip(1), pat@, rep@)));
            }
            i = i + 1;
        }
    }
    assert(s@.skip(i as int) =~= Seq::<char>::empty());
    assert(out@ + Seq::<char>::empty() =~= out@);
    out
}

/// `str::replace` with a non-empty pattern, on string slices.
pub fn str_replace(s: &str, pat: &str, rep: &str) -> (r: String)
    requires
        pat@.len() > 0,
    ensures
        r@ == replace_all(s@, pat@, rep@),
{
    let sv = chars_of(s);
    let pv = chars_of(pat);
    let rv = chars_of(rep);
    let out = replace_all_exec(sv.as_slice(), pv.as_slice(), rv.as_slice());
    string_of(out.as_slice())
}

/// Replaces every occurrence of one character by another.
pub fn replace_char_exec(s: &[char], a: char, b: char) -> (r: Vec<char>)
    ensures
        r@ == replace_char(s@, a, b),
{
    let mut out: Vec<char> = Vec::new();
    let mut i: usize = 0;
    while i < s.len()
        invariant
            i <= s@.len(),
            out@ == replace_char(s@.take(i as int), a, b),
        decreases s.len() - i,
    {
        let c = s[i];
        out.push(if c == a { b } else { c });
        i = i + 1;
        assert(out@ =~= replace_char(s@.take(i as int), a, b));
    }
    assert(s@.take(s@.len() as int) =~= s@);
    out
}

} // verus!

verus! {

// ---------------------------------------------------------------------
// Trimming and case
// ---------------------------------------------------------------------

/// `char::is_whitespace`.
pub fn is_ws_exec(c: char) -> (b: bool)
    ensures
        b == is_ws(c),
{
    c == '\t' || c == '\n' || c == '\u{0B}' || c == '\u{0C}' || c == '\r' || c == ' ' || c
        == '\u{85}' || c == '\u{A0}' || c == '\u{1680}' || ('\u{2000}' <= c && c <= '\u{200A}')
        || c == '\u{2028}' || c == '\u{2029}' || c == '\u{202F}' || c == '\u{205F}' || c
        == '\u{3000}'
}

/// `str::trim` on characters.
pub fn trim_exec(s: &[char]) -> (r: Vec<char>)
    ensures
        r@ == trim(s@),
{
    let mut start: usize = 0;
    assert(s@.skip(0) =~= s@);
    while start < s.len() && is_ws_exec(s[start])
        invariant
            start <= s@.len(),
            trim_start(s@) == trim_start(s@.skip(start as int)),
        decreases s.len() - start,
    {
        assert(s@.skip(start as int).drop_first() =~= s@.skip(start + 1));
        start = start + 1;
    }
    let ghost t = s@.skip(start as int);
    assert(trim_start(s@) == t);
    let mut end: usize = s.len();
    assert(t.take(t.len() as int) =~= t);
    while end > start && is_ws_exec(s[end - 1])
        invariant
            start <= end <= s@.len(),
            t == s@.skip(start as int),
            trim_end(t) == trim_end(t.take(end - start)),
        decreases end,
    {
        assert(t.take(end - start).drop_last() =~= t.take(end - 1 - start));
        end = end - 1;
    }
    let mut out: Vec<char> = Vec::new();
    let mut i: usize = start;
    while i < end
        invariant
            start <= i <= end <= s@.len(),
            out@ == s@.subrange(start as int, i as int),
        decreases end - i,
    {
        out.push(s[i]);
        i = i + 1;
        assert(out@ =~= s@.subrange(start as int, i as int));
    }
    assert(t.take(end - start) =~= s@.subrange(start as int, end as int));
    out
}

/// `str::trim` on string slices.
pub fn str_trim(s: &str) -> (r: Vec<char>)
    ensures
        r@ == trim(s@),
{
    let v = chars_of(s);
    trim_exec(v.as_slice())
}

/// Whether the trimmed string is empty (`s.trim().is_empty()`).
pub fn is_blank(s: &str) -> (b: bool)
    ensures
        b == (trim(s@).len() == 0),
{
    let t = str_trim(s);
    t.len() == 0
}

/// `str::trim_end_matches(c)` for a single character.
pub fn trim_end_char_exec(s: &[char], c: char) -> (r: Vec<char>)
    ensures
        r@ == trim_end_char(s@, c),
{
    let mut end: usize = s.len();
    assert(s@.take(s@.len() as int) =~= s@);
    while end > 0 && s[end - 1] == c
        invariant
            end <= s@.len(),
            trim_end_char(s@, c) == trim_end_char(s@.take(end as int), c),
        decreases end,
    {
        assert(s@.take(end as int).drop_last() =~= s@.take(end - 1));
        end = end - 1;
    }
    let mut out: Vec<char> = Vec::new();
    let mut i: usize = 0;
    while i < end
        invariant
            i <= end <= s@.len(),
            out@ == s@.take(i as int),
        decreases end - i,
    {
        out.push(s[i]);
        i = i + 1;
        assert(out@ =~= s@.take(i as int));
    }
    out
}

/// `str::trim_start_matches(c)` for a single character.
pub fn trim_start_char_exec(s: &[char], c: char) -> (r: Vec<char>)
    ensures
        r@ == trim_start_char(s@, c),
{
    let mut start: usize = 0;
    assert(s@.skip(0) =~= s@);
    while start < s.len() && s[start] == c
        invariant
            start <= s@.len(),
            trim_start_char(s@, c) == trim_start_char(s@.skip(start as int), c),
        decreases s.len() - start,
    {
        assert(s@.skip(start as int).drop_first() =~= s@.skip(start + 1));
        start = start + 1;
    }
    let mut out: Vec<char> = Vec::new();
    let mut i: usize = start;
    while i < s.len()
        invariant
            start <= i <= s@.len(),
            out@ == s@.subrange(start as int, i as int),
        decreases s.len() - i,
    {
        out.push(s[i]);
        i = i + 1;
        assert(out@ =~= s@.subrange(start as int, i as int));
    }
    assert(s@.skip(start as int) =~= s@.subrange(start as int, s@.len() as int));
    out
}

pub fn ascii_lower_char_exec(c: char) -> (r: char)
    ensures
        r == ascii_lower_char(c),
{
    if 'A' <= c && c <= 'Z' {
        let code: u8 = (c as u8) + 32;
        code as char
    } else {
        c
    }
}

/// `str::to_ascii_lowercase` on characters.
pub fn ascii_lower_exec(s: &[char]) -> (r: Vec<char>)
    ensures
        r@ == ascii_lower(s@),
{
    let mut out: Vec<char> = Vec::new();
    let mut i: usize = 0;
    while i < s.len()
        invariant
            i <= s@.len(),
            out@ == ascii_lower(s@.take(i as int)),
        decreases s.len() - i,
    {
        out.push(ascii_lower_char_exec(s[i]));
        i = i + 1;
        assert(out@ =~= ascii_lower(s@.take(i as int)));
    }
    assert(s@.take(s@.len() as int) =~= s@);
    out
}

// ---------------------------------------------------------------------
// Numbers
// ---------------------------------------------------------------------

/// Decimal representation of an unsigned integer (`n.to_string()`).
pub fn decimal_exec(n: u64) -> (r: Vec<char>)
    ensures
        r@ == decimal(n as nat),
    decreases n,
{
    let d: u64 = n % 10;
    let c = char_of_digit(d);
    if n < 10 {
        let mut v: Vec<char> = Vec::new();
        v.push(c);
        assert(v@ =~= decimal(n as nat));
        v
    } else {
        let mut v = decimal_exec(n / 10);
        v.push(c);
        assert(v@ =~= decimal(n as nat));
        v
    }
}

pub fn char_of_digit(d: u64) -> (c: char)
    requires
        d < 10,
    ensures
        c == digit_char(d as nat),
{
    let code: u8 = 48 + (d as u8);
    code as char
}

/// Appends the decimal representation of `n`.
pub fn push_decimal(s: &mut String, n: u64)
    ensures
        final(s)@ == old(s)@ + decimal(n as nat),
{
    let v = decimal_exec(n);
    push_chars(s, v.as_slice());
}

} // verus!

verus! {

/// Name for what `str::to_lowercase` returns: the Unicode lowercase mapping
/// of a string. Its value depends on the characters alone.
pub uninterp spec fn unicode_lowercase(s: Seq<char>) -> Seq<char>;

/// Calls `str::to_lowercase`; the result is named `unicode_lowercase` of
/// the input and nothing more is claimed of it.
#[verifier::external_body]
pub(crate) fn to_lowercase(s: &str) -> (r: String)
    ensures
        r@ == unicode_lowercase(s@),
{
    s.to_lowercase()
}

/// View of a sequence of strings as character sequences.
pub open spec fn views(v: Seq<String>) -> Seq<Seq<char>> {
    v.map_values(|s: String| s@)
}

/// A copy of a list of strings.
pub fn clone_strings(v: &Vec<String>) -> (r: Vec<String>)
    ensures
        r@ == v@,
{
    let mut out: Vec<String> = Vec::new();
    let mut i: usize = 0;
    while i < v.len()
        invariant
            i <= v@.len(),
            out@ == v@.take(i as int),
        decreases v.len() - i,
    {
        out.push(v[i].clone());
        i = i + 1;
        assert(out@ =~= v@.take(i as int));
    }
    assert(v@.take(v@.len() as int) =~= v@);
    out
}

/// A string from a literal or slice.
pub fn owned(s: &str) -> (r: String)
    ensures
        r@ == s@,
{
    s.to_owned()
}

/// Whether two strings are equal.
pub fn str_eq(a: &str, b: &str) -> (r: bool)
    ensures
        r == (a@ == b@),
{
    let av = chars_of(a);
    let bv = chars_of(b);
    if av.len() != bv.len() {
        return false;
    }
    let mut i: usize = 0;
    while i < av.len()
        invariant
            av@ == a@,
            bv@ == b@,
            av@.len() == bv@.len(),
            i <= av@.len(),
            forall|j: int| 0 <= j < i ==> av@[j] == bv@[j],
        decreases av.len() - i,
    {
        if av[i] != bv[i] {
            return false;
        }
        i = i + 1;
    }
    assert(av@ =~= bv@);
    true
}

/// Whether the list holds a string equal to `s`.
pub fn strings_contain(v: &Vec<String>, s: &str) -> (r: bool)
    ensures
        r == views(v@).contains(s@),
{
    let mut i: usize = 0;
    while i < v.len()
        invariant
            i <= v@.len(),
            forall|j: int| 0 <= j < i ==> v@[j]@ != s@,
        decreases v.len() - i,
    {
        if str_eq(v[i].as_str(), s) {
            assert(views(v@)[i as int] == s@);
            return true;
        }
        i = i + 1;
    }
    assert(!views(v@).contains(s@)) by {
        if views(v@).contains(s@) {
            let k = choose|k: int| 0 <= k < views(v@).len() && views(v@)[k] == s@;
            assert(v@[k]@ == s@);
        }
    }
    false
}

} // verus!

verus! {

// ---------------------------------------------------------------------
// Splitting and joining
// ---------------------------------------------------------------------

/// `str::split(c)`: the pieces between occurrences of `c`; always at least one.
pub open spec fn split_char(s: Seq<char>, c: char) -> Seq<Seq<char>>
    decreases s.len(),
{
    if s.len() == 0 {
        seq![Seq::empty()]
    } else {
        let p = split_char(s.drop_last(), c);
        if s.last() == c {
            p.push(Seq::empty())
        } else {
            p.drop_last().push(p.last().push(s.last()))
        }
    }
}

/// A line ended by '\n' loses one carriage return before it.
pub open spec fn strip_cr(line: Seq<char>) -> Seq<char> {
    if line.len() > 0 && line.last() == '\r' { line.drop_last() } else { line }
}

/// `str::lines`: split at '\n'; a final line ending is optional; a line
/// that ended in "\r\n" loses the '\r'.
pub open spec fn lines(s: Seq<char>) -> Seq<Seq<char>> {
    let p = split_char(s, '\n');
    let ended = p.drop_last().map_values(|l: Seq<char>| strip_cr(l));
    if p.last().len() == 0 { ended } else { ended.push(p.last()) }
}

/// The pieces joined by `sep` (`[T]::join`).
pub open spec fn join(parts: Seq<Seq<char>>, sep: Seq<char>) -> Seq<char>
    decreases parts.len(),
{
    if parts.len() == 0 {
        Seq::empty()
    } else if parts.len() == 1 {
        parts[0]
    } else {
        join(parts.drop_last(), sep) + sep + parts.last()
    }
}

pub open spec fn views_of_vecs(v: Seq<Vec<char>>) -> Seq<Seq<char>> {
    v.map_values(|x: Vec<char>| x@)
}

pub proof fn lemma_split_nonempty(s: Seq<char>, c: char)
    ensures
        split_char(s, c).len() >= 1,
    decreases s.len(),
{
    if s.len() > 0 {
        lemma_split_nonempty(s.drop_last(), c);
    }
}

/// `str::split(c)` on characters.
pub fn split_char_exec(s: &[char], c: char) -> (r: Vec<Vec<char>>)
    ensures
        views_of_vecs(r@) == split_char(s@, c),
        r@.len() >= 1,
{
    let mut parts: Vec<Vec<char>> = Vec::new();
    let mut cur: Vec<char> = Vec::new();
    let mut i: usize = 0;
    assert(s@.take(0) =~= Seq::<char>::empty());
    assert(views_of_vecs(parts@).push(cur@) =~= split_char(s@.take(0), c));
    while i < s.len()
        invariant
            i <= s@.len(),
            views_of_vecs(parts@).push(cur@) == split_char(s@.take(i as int), c),
        decreases s.len() - i,
    {
        let x = s[i];
        let ghost prev = s@.take(i as int);
        assert(s@.take(i + 1).drop_last() =~= prev);
        assert(s@.take(i + 1).last() == x);
        if x == c {
            parts.push(cur);
            cur = Vec::new();
            assert(views_of_vecs(parts@).push(cur@) =~= split_char(prev, c).push(Seq::empty()));
        } else {
            let ghost old_parts = views_of_vecs(parts@);
            cur.push(x);
            assert(split_char(prev, c).drop_last() =~= old_parts);
            assert(views_of_vecs(parts@).push(cur@) =~= split_char(prev, c).drop_last().push(
                split_char(prev, c).last().push(x),
            ));
        }
        i = i + 1;
    }
    assert(s@.take(s@.len() as int) =~= s@);
    parts.push(cur);
    parts
}

/// `str::lines` on characters.
pub fn lines_exec(s: &[char]) -> (r: Vec<Vec<char>>)
    ensures
        views_of_vecs(r@) == lines(s@),
{
    let pieces = split_char_exec(s, '\n');
    let n = pieces.len();
    let ghost p = split_char(s@, '\n');
    let mut out: Vec<Vec<char>> = Vec::new();
    let mut i: usize = 0;
    while i + 1 < n
        invariant
            n == pieces@.len(),
            n >= 1,
            views_of_vecs(pieces@) == p,
            i + 1 <= n,
            views_of_vecs(out@) == p.drop_last().take(i as int).map_values(
                |l: Seq<char>| strip_cr(l),
            ),
        decreases n - i,
    {
        let line = &pieces[i];
        assert(views_of_vecs(pieces@)[i as int] == line@);
        let stripped = if line.len() > 0 && line[line.len() - 1] == '\r' {
            let mut t: Vec<char> = Vec::new();
            let mut k: usize = 0;
            while k + 1 < line.len()
                invariant
                    k + 1 <= line@.len(),
                    line@.len() > 0,
                    t@ == line@.take(k as int),
                decreases line.len() - k,
            {
                t.push(line[k]);
                k = k + 1;
                assert(t@ =~= line@.take(k as int));
            }
            assert(t@ =~= line@.drop_last());
            t
        } else {
            let mut t: Vec<char> = Vec::new();
            let mut k: usize = 0;
            while k < line.len()
                invariant
                    k <= line@.len(),
                    t@ == line@.take(k as int),
                decreases line.len() - k,
            {
                t.push(line[k]);
                k = k + 1;
                assert(t@ =~= line@.take(k as int));
            }
            assert(t@ =~= line@);
            t
        };
        assert(stripped@ == strip_cr(line@));
        assert(p.drop_last()[i as int] == line@);
        let ghost prev_out = views_of_vecs(out@);
        out.push(stripped);
        assert(views_of_vecs(out@) =~= prev_out.push(stripped@));
        i = i + 1;
        assert(views_of_vecs(out@) =~= p.drop_last().take(i as int).map_values(
            |l: Seq<char>| strip_cr(l),
        ));
    }
    assert(p.drop_last().take(i as int) =~= p.drop_last());
    let last = &pieces[n - 1];
    assert(views_of_vecs(pieces@)[n - 1] == last@);
    if last.len() > 0 {
        let mut t: Vec<char> = Vec::new();
        let mut k: usize = 0;
        while k < last.len()
            invariant
                k <= last@.len(),
                t@ == last@.take(k as int),
            decreases last.len() - k,
        {
            t.push(last[k]);
            k = k + 1;
            assert(t@ =~= last@.take(k as int));
        }
        assert(t@ =~= last@);
        out.push(t);
        assert(views_of_vecs(out@) =~= lines(s@));
    } else {
        assert(views_of_vecs(out@) =~= lines(s@));
    }
    out
}

/// Appends `sep` and then `part` unless `first`, in which case only `part`.
fn push_joined(out: &mut Vec<char>, part: &[char], sep: &[char], first: bool)
    ensures
        final(out)@ == if first { old(out)@ + part@ } else { old(out)@ + sep@ + part@ },
{
    let ghost start = out@;
    if !first {
        let mut k: usize = 0;
        while k < sep.len()
            invariant
                k <= sep@.len(),
                out@ == start + sep@.take(k as int),
            decreases sep.len() - k,
        {
            out.push(sep[k]);
            k = k + 1;
            assert(out@ =~= start + sep@.take(k as int));
        }
        assert(sep@.take(sep@.len() as int) =~= sep@);
    }
    let ghost mid = out@;
    let mut k: usize = 0;
    while k < part.len()
        invariant
            k <= part@.len(),
            out@ == mid + part@.take(k as int),
        decreases part.len() - k,
    {
        out.push(part[k]);
        k = k + 1;
        assert(out@ =~= mid + part@.take(k as int));
    }
    assert(part@.take(part@.len() as int) =~= part@);
}

pub proof fn lemma_join_push(parts: Seq<Seq<char>>, sep: Seq<char>, x: Seq<char>)
    ensures
        join(parts.push(x), sep) == if parts.len() == 0 { x } else { join(parts, sep) + sep + x },
{
    assert(parts.push(x).drop_last() =~= parts);
}

/// The pieces joined by `sep`.
pub fn join_exec(parts: &Vec<Vec<char>>, sep: &[char]) -> (r: Vec<char>)
    ensures
        r@ == join(views_of_vecs(parts@), sep@),
{
    let mut out: Vec<char> = Vec::new();
    let mut i: usize = 0;
    while i < parts.len()
        invariant
            i <= parts@.len(),
            out@ == join(views_of_vecs(parts@).take(i as int), sep@),
        decreases parts.len() - i,
    {
        let ghost before = views_of_vecs(parts@).take(i as int);
        push_joined(&mut out, parts[i].as_slice(), sep, i == 0);
        proof {
            assert(views_of_vecs(parts@).take(i + 1) =~= before.push(parts@[i as int]@));
            lemma_join_push(before, sep@, parts@[i as int]@);
        }
        i = i + 1;
    }
    assert(views_of_vecs(parts@).take(parts@.len() as int) =~= views_of_vecs(parts@));
    out
}

} // verus!

verus! {

/// Index of the first occurrence of `pat` in `s`.
pub open spec fn first_occurrence(s: Seq<char>, pat: Seq<char>) -> Option<int>
    decreases s.len(),
{
    if pat.len() > s.len() {
        None
    } else if starts_with(s, pat) {
        Some(0)
    } else if s.len() == 0 {
        None
    } else {
        match first_occurrence(s.drop_first(), pat) {
            Some(i) => Some(i + 1),
            None => None,
        }
    }
}

proof fn lemma_occurs_shift(s: Seq<char>, pat: Seq<char>, i: int)
    requires
        s.len() > 0,
        i >= 1,
    ensures
        occurs_at(s, pat, i) == occurs_at(s.drop_first(), pat, i - 1),
{
    if 0 <= i && i + pat.len() <= s.len() {
        assert(s.subrange(i, i + pat.len()) =~= s.drop_first().subrange(i - 1, i - 1 + pat.len()));
    }
}

/// `first_occurrence` agrees with a minimal occurrence, and is `None`
/// exactly when there is none.
pub proof fn lemma_first_occurrence(s: Seq<char>, pat: Seq<char>)
    ensures
        match first_occurrence(s, pat) {
            Some(i) => occurs_at(s, pat, i) && forall|j: int| 0 <= j < i ==> !occurs_at(s, pat, j),
            None => !contains(s, pat),
        },
    decreases s.len(),
{
    if pat.len() > s.len() {
        assert forall|j: int| !occurs_at(s, pat, j) by {}
    } else if starts_with(s, pat) {
    } else if s.len() == 0 {
        assert forall|j: int| !occurs_at(s, pat, j) by {
            if occurs_at(s, pat, j) {
                assert(j == 0);
            }
        }
    } else {
        lemma_first_occurrence(s.drop_first(), pat);
        match first_occurrence(s.drop_first(), pat) {
            Some(i) => {
                lemma_occurs_shift(s, pat, i + 1);
                assert forall|j: int| 0 <= j < i + 1 implies !occurs_at(s, pat, j) by {
                    if j >= 1 {
                        lemma_occurs_shift(s, pat, j);
                    }
                }
            },
            None => {
                assert forall|j: int| !occurs_at(s, pat, j) by {
                    if j >= 1 {
                        lemma_occurs_shift(s, pat, j);
                    }
                }
            },
        }
    }
}

/// `str::find` on characters, as a character index.
pub fn find_exec(s: &[char], pat: &[char]) -> (r: Option<usize>)
    ensures
        match r {
            Some(i) => first_occurrence(s@, pat@) == Some(i as int),
            None => first_occurrence(s@, pat@) is None,
        },
{
    proof {
        lemma_first_occurrence(s@, pat@);
    }
    let r = find_first(s, pat);
    proof {
        match first_occurrence(s@, pat@) {
            Some(k) => {
                match r {
                    Some(i) => {
                        if k < i {
                        } else if i < k {
                        }
                    },
                    None => {},
                }
            },
            None => {},
        }
    }
    r
}

/// Trailing characters from a set of two removed (`trim_end_matches([a, b])`).
pub open spec fn trim_end_either(s: Seq<char>, a: char, b: char) -> Seq<char>
    decreases s.len(),
{
    if s.len() > 0 && (s.last() == a || s.last() == b) {
        trim_end_either(s.drop_last(), a, b)
    } else {
        s
    }
}

pub fn trim_end_either_exec(s: &[char], a: char, b: char) -> (r: Vec<char>)
    ensures
        r@ == trim_end_either(s@, a, b),
{
    let mut end: usize = s.len();
    assert(s@.take(s@.len() as int) =~= s@);
    while end > 0 && (s[end - 1] == a || s[end - 1] == b)
        invariant
            end <= s@.len(),
            trim_end_either(s@, a, b) == trim_end_either(s@.take(end as int), a, b),
        decreases end,
    {
        assert(s@.take(end as int).drop_last() =~= s@.take(end - 1));
        end = end - 1;
    }
    let mut out: Vec<char> = Vec::new();
    let mut i: usize = 0;
    while i < end
        invariant
            i <= end <= s@.len(),
            out@ == s@.take(i as int),
        decreases end - i,
    {
        out.push(s[i]);
        i = i + 1;
        assert(out@ =~= s@.take(i as int));
    }
    out
}

/// The characters from index `from` on.
pub fn skip_exec(s: &[char], from: usize) -> (r: Vec<char>)
    requires
        from <= s@.len(),
    ensures
        r@ == s@.skip(from as int),
{
    let mut out: Vec<char> = Vec::new();
    let mut i: usize = from;
    while i < s.len()
        invariant
            from <= i <= s@.len(),
            out@ == s@.subrange(from as int, i as int),
        decreases s.len() - i,
    {
        out.push(s[i]);
        i = i + 1;
        assert(out@ =~= s@.subrange(from as int, i as int));
    }
    out
}

/// The first `n` characters.
pub fn take_exec(s: &[char], n: usize) -> (r: Vec<char>)
    requires
        n <= s@.len(),
    ensures
        r@ == s@.take(n as int),
{
    let mut out: Vec<char> = Vec::new();
    let mut i: usize = 0;
    while i < n
        invariant
            i <= n <= s@.len(),
            out@ == s@.take(i as int),
        decreases n - i,
    {
        out.push(s[i]);
        i = i + 1;
        assert(out@ =~= s@.take(i as int));
    }
    out
}

/// A copy of a character slice.
pub fn copy_chars(v: &[char]) -> (r: Vec<char>)
    ensures
        r@ == v@,
{
    let mut out: Vec<char> = Vec::new();
    let mut i: usize = 0;
    while i < v.len()
        invariant
            i <= v@.len(),
            out@ == v@.take(i as int),
        decreases v.len() - i,
    {
        out.push(v[i]);
        i = i + 1;
        assert(out@ =~= v@.take(i as int));
    }
    assert(v@.take(v@.len() as int) =~= v@);
    out
}

/// Whether two character sequences are equal.
pub fn chars_eq(a: &Vec<char>, b: &Vec<char>) -> (r: bool)
    ensures
        r == (a@ == b@),
{
    if a.len() != b.len() {
        return false;
    }
    let mut i: usize = 0;
    while i < a.len()
        invariant
            a@.len() == b@.len(),
            i <= a@.len(),
            forall|j: int| 0 <= j < i ==> a@[j] == b@[j],
        decreases a.len() - i,
    {
        if a[i] != b[i] {
            return false;
        }
        i = i + 1;
    }
    assert(a@ =~= b@);
    true
}

// ---------------------------------------------------------------------
// Words and numbers
// ---------------------------------------------------------------------

/// Scan state of `str::split_whitespace`: the finished words and the word
/// being read.
pub open spec fn word_scan(s: Seq<char>) -> (Seq<Seq<char>>, Seq<char>)
    decreases s.len(),
{
    if s.len() == 0 {
        (Seq::empty(), Seq::empty())
    } else {
        let st = word_scan(s.drop_last());
        if is_ws(s.last()) {
            if st.1.len() > 0 { (st.0.push(st.1), Seq::empty()) } else { st }
        } else {
            (st.0, st.1.push(s.last()))
        }
    }
}

/// `str::split_whitespace`: the maximal runs of non-whitespace characters.
pub open spec fn words(s: Seq<char>) -> Seq<Seq<char>> {
    let st = word_scan(s);
    if st.1.len() > 0 { st.0.push(st.1) } else { st.0 }
}

/// `str::split_whitespace` on characters.
pub fn words_exec(s: &[char]) -> (r: Vec<Vec<char>>)
    ensures
        views_of_vecs(r@) == words(s@),
{
    let mut done: Vec<Vec<char>> = Vec::new();
    let mut cur: Vec<char> = Vec::new();
    let mut i: usize = 0;
    assert(s@.take(0) =~= Seq::<char>::empty());
    while i < s.len()
        invariant
            i <= s@.len(),
            word_scan(s@.take(i as int)) == (views_of_vecs(done@), cur@),
        decreases s.len() - i,
    {
        let x = s[i];
        let ghost prev = s@.take(i as int);
        assert(s@.take(i + 1).drop_last() =~= prev);
        assert(s@.take(i + 1).last() == x);
        if is_ws_exec(x) {
            if cur.len() > 0 {
                let ghost old_done = views_of_vecs(done@);
                done.push(cur);
                cur = Vec::new();
                assert(views_of_vecs(done@) =~= old_done.push(word_scan(prev).1));
                assert(cur@ =~= Seq::<char>::empty());
            }
        } else {
            cur.push(x);
        }
        i = i + 1;
    }
    assert(s@.take(s@.len() as int) =~= s@);
    if cur.len() > 0 {
        let ghost old_done = views_of_vecs(done@);
        done.push(cur);
        assert(views_of_vecs(done@) =~= old_done.push(word_scan(s@).1));
    }
    done
}

/// `str::split_whitespace` on a string.
pub fn split_words(s: &str) -> (r: Vec<Vec<char>>)
    ensures
        views_of_vecs(r@) == words(s@),
{
    let v = chars_of(s);
    words_exec(v.as_slice())
}

pub open spec fn is_digit(c: char) -> bool {
    '0' <= c && c <= '9'
}

/// The value of a sequence of decimal digits.
pub open spec fn digits_value(s: Seq<char>) -> nat
    decreases s.len(),
{
    if s.len() == 0 {
        0
    } else {
        digits_value(s.drop_last()) * 10 + ((s.last() as nat) - ('0' as nat)) as nat
    }
}

/// The digits `u64::from_str` reads: all of the text, or all after one
/// leading '+'.
pub open spec fn number_digits(s: Seq<char>) -> Seq<char> {
    if s.len() > 0 && s[0] == '+' { s.drop_first() } else { s }
}

/// `u64::from_str`: an optional '+', then at least one ASCII digit and
/// nothing else, with a value that fits.
pub open spec fn spec_parse_u64(s: Seq<char>) -> Option<u64> {
    let d = number_digits(s);
    if d.len() > 0 && (forall|k: int| 0 <= k < d.len() ==> is_digit(#[trigger] d[k])) && digits_value(d) <= u64::MAX {
        Some(digits_value(d) as u64)
    } else {
        None
    }
}

proof fn lemma_digits_prefix_le(d: Seq<char>, i: int)
    requires
        0 <= i <= d.len(),
        forall|k: int| 0 <= k < d.len() ==> is_digit(#[trigger] d[k]),
    ensures
        digits_value(d.take(i)) <= digits_value(d),
    decreases d.len() - i,
{
    if i < d.len() {
        lemma_digits_prefix_le(d, i + 1);
        assert(d.take(i + 1).drop_last() =~= d.take(i));
        assert(d.take(i + 1).last() == d[i]);
    } else {
        assert(d.take(i) =~= d);
    }
}

/// `u64::from_str` on characters.
pub fn parse_u64_chars(s: &[char]) -> (r: Option<u64>)
    ensures
        r == spec_parse_u64(s@),
{
    let start: usize = if s.len() > 0 && s[0] == '+' { 1 } else { 0 };
    let ghost d = number_digits(s@);
    assert(d =~= s@.skip(start as int));
    if start >= s.len() {
        return None;
    }
    let mut value: u64 = 0;
    let mut i: usize = start;
    assert(d.take(0) =~= Seq::<char>::empty());
    while i < s.len()
        invariant
            start <= i <= s@.len(),
            d == s@.skip(start as int),
            d == number_digits(s@),
            d.len() == s@.len() - start,
            forall|k: int| 0 <= k < i - start ==> is_digit(#[trigger] d[k]),
            value as nat == digits_value(d.take(i - start)),
        decreases s.len() - i,
    {
        let c = s[i];
        assert(d[i - start] == c);
        if !('0' <= c && c <= '9') {
            assert(!is_digit(d[i - start]));
            return None;
        }
        let digit = (c as u32 - '0' as u32) as u64;
        assert(d.take(i - start + 1).drop_last() =~= d.take(i - start));
        assert(d.take(i - start + 1).last() == c);
        let ghost next = digits_value(d.take(i - start + 1));
        assert(next == value as nat * 10 + digit as nat);
        if value > (u64::MAX - digit) / 10 {
            assert(next > u64::MAX) by (nonlinear_arith)
                requires
                    next == value as nat * 10 + digit as nat,
                    value > (u64::MAX - digit) / 10,
                    digit <= 9,
            ;
            let mut j: usize = i + 1;
            while j < s.len()
                invariant
                    start <= i < j <= s@.len(),
                    d == s@.skip(start as int),
                    d == number_digits(s@),
                    d.len() == s@.len() - start,
                    forall|k: int| 0 <= k < j - start ==> is_digit(#[trigger] d[k]),
                    digits_value(d.take(i - start + 1)) > u64::MAX,
                decreases s.len() - j,
            {
                assert(d[j - start] == s@[j as int]);
                if !('0' <= s[j] && s[j] <= '9') {
                    assert(!is_digit(d[j - start]));
                    return None;
                }
                j = j + 1;
            }
            proof {
                lemma_digits_prefix_le(d, i - start + 1);
            }
            return None;
        }
        value = value * 10 + digit;
        i = i + 1;
    }
    assert(d.take(d.len() as int) =~= d);
    Some(value)
}

/// `u64::from_str`.
pub fn parse_u64(s: &str) -> (r: Option<u64>)
    ensures
        r == spec_parse_u64(s@),
{
    let v = chars_of(s);
    parse_u64_chars(v.as_slice())
}

/// `filter_map(str::parse::<u64>)` over words: the words that are numbers.
pub open spec fn numbers(ws: Seq<Seq<char>>) -> Seq<u64>
    decreases ws.len(),
{
    if ws.len() == 0 {
        Seq::empty()
    } else {
        match spec_parse_u64(ws.last()) {
            Some(v) => numbers(ws.drop_last()).push(v),
            None => numbers(ws.drop_last()),
        }
    }
}

/// The words from `from` on that are numbers, in order.
pub fn numbers_exec(ws: &Vec<Vec<char>>, from: usize) -> (r: Vec<u64>)
    requires
        from <= ws@.len(),
    ensures
        r@ == numbers(views_of_vecs(ws@).skip(from as int)),
{
    let ghost all = views_of_vecs(ws@).skip(from as int);
    let mut out: Vec<u64> = Vec::new();
    let mut i: usize = from;
    assert(all.take(0) =~= Seq::<Seq<char>>::empty());
    while i < ws.len()
        invariant
            from <= i <= ws@.len(),
            all == views_of_vecs(ws@).skip(from as int),
            out@ == numbers(all.take(i - from)),
        decreases ws.len() - i,
    {
        assert(all.take(i - from + 1).drop_last() =~= all.take(i - from));
        assert(all.take(i - from + 1).last() == ws@[i as int]@);
        match parse_u64_chars(ws[i].as_slice()) {
            Some(v) => {
                out.push(v);
            },
            None => {},
        }
        i = i + 1;
    }
    assert(all.take(all.len() as int) =~= all);
    out
}

} // verus!

verus! {

// ---------------------------------------------------------------------
// Trimming, splitting and joining: how they fit together
// ---------------------------------------------------------------------

/// `trim_start` drops a prefix, keeps what follows whole, and leaves a
/// result that starts with no whitespace.
pub proof fn lemma_trim_start_facts(x: Seq<char>)
    ensures
        trim_start(x).len() <= x.len(),
        trim_start(x) == x.skip(x.len() - trim_start(x).len()),
        trim_start(x).len() > 0 ==> !is_ws(trim_start(x)[0]),
        trim_start(trim_start(x)) == trim_start(x),
    decreases x.len(),
{
    if x.len() > 0 && is_ws(x[0]) {
        lemma_trim_start_facts(x.drop_first());
        let t = trim_start(x.drop_first());
        assert(x.drop_first().skip(x.drop_first().len() - t.len()) =~= x.skip(x.len() - t.len()));
    } else {
        assert(x.skip(0) =~= x);
    }
}

/// `trim_end` keeps a prefix and leaves a result that ends with no
/// whitespace; it is empty only for a text that is empty or starts with
/// whitespace.
pub proof fn lemma_trim_end_facts(x: Seq<char>)
    ensures
        trim_end(x).len() <= x.len(),
        trim_end(x) == x.take(trim_end(x).len() as int),
        trim_end(x).len() > 0 ==> !is_ws(trim_end(x).last()),
        trim_end(trim_end(x)) == trim_end(x),
        trim_end(x).len() == 0 ==> x.len() == 0 || is_ws(x[0]),
    decreases x.len(),
{
    if x.len() > 0 && is_ws(x.last()) {
        lemma_trim_end_facts(x.drop_last());
        let t = trim_end(x.drop_last());
        assert(x.drop_last().take(t.len() as int) =~= x.take(t.len() as int));
        if t.len() == 0 && x.drop_last().len() > 0 {
            assert(x.drop_last()[0] == x[0]);
        }
    } else {
        assert(x.take(x.len() as int) =~= x);
    }
}

pub proof fn lemma_trim_start_concat(x: Seq<char>, y: Seq<char>)
    ensures
        trim_start(x + y) == if trim_start(x).len() == 0 { trim_start(y) } else { trim_start(x) + y },
    decreases x.len(),
{
    if x.len() == 0 {
        assert(x + y =~= y);
    } else if is_ws(x[0]) {
        assert((x + y)[0] == x[0]);
        assert((x + y).drop_first() =~= x.drop_first() + y);
        lemma_trim_start_concat(x.drop_first(), y);
    } else {
        assert((x + y)[0] == x[0]);
    }
}

pub proof fn lemma_trim_end_concat(x: Seq<char>, y: Seq<char>)
    ensures
        trim_end(x + y) == if trim_end(y).len() == 0 { trim_end(x) } else { x + trim_end(y) },
    decreases y.len(),
{
    if y.len() == 0 {
        assert(x + y =~= x);
    } else if is_ws(y.last()) {
        assert((x + y).last() == y.last());
        assert((x + y).drop_last() =~= x + y.drop_last());
        lemma_trim_end_concat(x, y.drop_last());
    } else {
        assert((x + y).last() == y.last());
    }
}

/// Trimming either end first gives the same text.
pub proof fn lemma_trim_commutes(x: Seq<char>)
    ensures
        trim_start(trim_end(x)) == trim_end(trim_start(x)),
    decreases x.len(),
{
    if x.len() == 0 {
    } else if is_ws(x[0]) {
        let x1 = x.drop_first();
        lemma_trim_commutes(x1);
        assert(x =~= seq![x[0]] + x1);
        lemma_trim_end_concat(seq![x[0]], x1);
        assert(trim_start(x) == trim_start(x1));
        if trim_end(x1).len() == 0 {
            assert(seq![x[0]].drop_last() =~= Seq::<char>::empty());
            assert(trim_end(seq![x[0]]) == trim_end(Seq::<char>::empty()));
            assert(trim_end(x).len() == 0);
            assert(trim_start(trim_end(x)) =~= Seq::<char>::empty());
        } else {
            let y = seq![x[0]] + trim_end(x1);
            assert(trim_end(x) == y);
            assert(y[0] == x[0]);
            assert(y.drop_first() =~= trim_end(x1));
            assert(trim_start(y) == trim_start(y.drop_first()));
        }
    } else {
        lemma_trim_end_facts(x);
        let t = trim_end(x);
        assert(trim_start(x) == x);
        if t.len() > 0 {
            assert(t[0] == x.take(t.len() as int)[0]);
            assert(t[0] == x[0]);
            assert(trim_start(t) == t);
        }
    }
}

/// `trim` of a text already trimmed at either end is the text's `trim`.
pub proof fn lemma_trim_of_trimmed(x: Seq<char>)
    ensures
        trim(trim_start(x)) == trim(x),
        trim(trim_end(x)) == trim(x),
        trim(trim(x)) == trim(x),
{
    lemma_trim_start_facts(x);
    lemma_trim_end_facts(trim_start(x));
    lemma_trim_commutes(x);
    lemma_trim_end_facts(x);
    lemma_trim_start_facts(trim_end(x));
    lemma_trim_commutes(trim_end(trim_start(x)));
    lemma_trim_start_facts(trim_end(trim_start(x)));
    lemma_trim_end_facts(trim_start(trim_end(trim_start(x))));
}

/// Appending text without the separator extends the last piece.
pub proof fn lemma_split_append(p: Seq<char>, b: Seq<char>, c: char)
    requires
        !b.contains(c),
    ensures
        split_char(p + b, c) == split_char(p, c).drop_last().push(split_char(p, c).last() + b),
    decreases b.len(),
{
    lemma_split_nonempty(p, c);
    let s = split_char(p, c);
    if b.len() == 0 {
        assert(p + b =~= p);
        assert(s.last() + b =~= s.last());
        assert(s.drop_last().push(s.last()) =~= s);
    } else {
        let q = p + b;
        assert(q.last() == b.last());
        assert(b.last() != c) by {
            if b.last() == c {
                assert(b.contains(b[b.len() - 1]));
            }
        }
        assert(q.drop_last() =~= p + b.drop_last());
        assert(!b.drop_last().contains(c)) by {
            if b.drop_last().contains(c) {
                let k = choose|k: int| 0 <= k < b.drop_last().len() && b.drop_last()[k] == c;
                assert(b[k] == c);
            }
        }
        lemma_split_append(p, b.drop_last(), c);
        let pp = split_char(p + b.drop_last(), c);
        assert(pp.drop_last() =~= s.drop_last());
        assert(pp.last().push(b.last()) =~= s.last() + b);
    }
}

/// Splitting pieces joined by the separator gives the pieces back, when
/// none of them holds the separator.
pub proof fn lemma_split_join(parts: Seq<Seq<char>>, c: char)
    requires
        parts.len() >= 1,
        forall|i: int| 0 <= i < parts.len() ==> !(#[trigger] parts[i]).contains(c),
    ensures
        split_char(join(parts, seq![c]), c) == parts,
    decreases parts.len(),
{
    if parts.len() == 1 {
        lemma_split_append(Seq::empty(), parts[0], c);
        assert(Seq::<char>::empty() + parts[0] =~= parts[0]);
        assert(split_char(Seq::<char>::empty(), c) =~= seq![Seq::<char>::empty()]);
        assert(seq![Seq::<char>::empty() + parts[0]] =~= parts);
    } else {
        let front = parts.drop_last();
        lemma_split_join(front, c);
        let p = join(front, seq![c]) + seq![c];
        assert(p.last() == c);
        assert(p.drop_last() =~= join(front, seq![c]));
        assert(split_char(p, c) == front.push(Seq::empty()));
        lemma_split_append(p, parts.last(), c);
        assert(join(parts, seq![c]) == p + parts.last());
        assert(front.push(Seq::empty()).drop_last() =~= front);
        assert(Seq::<char>::empty() + parts.last() =~= parts.last());
        assert(front.push(parts.last()) =~= parts);
    }
}

/// No piece of a split holds the separator.
pub proof fn lemma_split_pieces(s: Seq<char>, c: char)
    ensures
        forall|i: int| 0 <= i < split_char(s, c).len() ==> !(#[trigger] split_char(s, c)[i]).contains(c),
    decreases s.len(),
{
    if s.len() > 0 {
        lemma_split_pieces(s.drop_last(), c);
        lemma_split_nonempty(s.drop_last(), c);
        let p = split_char(s.drop_last(), c);
        if s.last() != c {
            let l = p.last().push(s.last());
            assert(!l.contains(c)) by {
                if l.contains(c) {
                    let k = choose|k: int| 0 <= k < l.len() && l[k] == c;
                    if k < p.last().len() {
                        assert(p[p.len() - 1][k] == c);
                        assert(p[p.len() - 1].contains(c));
                    }
                }
            }
            assert forall|i: int| 0 <= i < split_char(s, c).len() implies !(#[trigger] split_char(s, c)[i]).contains(c) by {
                if i < p.len() - 1 {
                    assert(split_char(s, c)[i] == p[i]);
                }
            }
        } else {
            assert forall|i: int| 0 <= i < split_char(s, c).len() implies !(#[trigger] split_char(s, c)[i]).contains(c) by {
                if i < p.len() {
                    assert(split_char(s, c)[i] == p[i]);
                } else {
                    assert(split_char(s, c)[i] =~= Seq::<char>::empty());
                }
            }
        }
    }
}

/// `join` read from the front.
pub proof fn lemma_join_front(parts: Seq<Seq<char>>, sep: Seq<char>)
    requires
        parts.len() >= 2,
    ensures
        join(parts, sep) == parts[0] + sep + join(parts.drop_first(), sep),
    decreases parts.len(),
{
    let rest = parts.drop_first();
    if parts.len() == 2 {
        assert(parts.drop_last() =~= seq![parts[0]]);
        assert(rest =~= seq![parts[1]]);
        assert(join(parts.drop_last(), sep) == parts[0]);
        assert(join(rest, sep) == parts[1]);
        assert(join(parts, sep) == join(parts.drop_last(), sep) + sep + parts.last());
    } else {
        let front = parts.drop_last();
        lemma_join_front(front, sep);
        assert(rest.drop_last() =~= front.drop_first());
        assert(rest.last() == parts.last());
        assert(front[0] == parts[0]);
        assert(join(rest, sep) == join(rest.drop_last(), sep) + sep + rest.last());
        assert(join(parts, sep) == join(front, sep) + sep + parts.last());
        assert(join(parts, sep) =~= parts[0] + sep + join(rest, sep));
    }
}

/// Lines with the blank ones at the start dropped and the first remaining
/// one trimmed at its start: what `trim_start` does to lines joined by '\n'.
pub open spec fn ltrim_lines(k: Seq<Seq<char>>) -> Seq<Seq<char>>
    decreases k.len(),
{
    if k.len() == 0 {
        k
    } else if trim_start(k[0]).len() == 0 {
        ltrim_lines(k.drop_first())
    } else {
        k.update(0, trim_start(k[0]))
    }
}

/// Lines with the blank ones at the end dropped and the last remaining one
/// trimmed at its end: what `trim_end` does to lines joined by '\n'.
pub open spec fn rtrim_lines(k: Seq<Seq<char>>) -> Seq<Seq<char>>
    decreases k.len(),
{
    if k.len() == 0 {
        k
    } else if trim_end(k.last()).len() == 0 {
        rtrim_lines(k.drop_last())
    } else {
        k.update(k.len() - 1, trim_end(k.last()))
    }
}

pub proof fn lemma_trim_start_join(k: Seq<Seq<char>>)
    ensures
        trim_start(join(k, seq!['\n'])) == join(ltrim_lines(k), seq!['\n']),
    decreases k.len(),
{
    let nl = seq!['\n'];
    if k.len() == 0 {
    } else if k.len() == 1 {
        if trim_start(k[0]).len() == 0 {
            assert(k.drop_first() =~= Seq::<Seq<char>>::empty());
        } else {
            assert(k.update(0, trim_start(k[0])) =~= seq![trim_start(k[0])]);
        }
    } else {
        let rest = k.drop_first();
        lemma_join_front(k, nl);
        lemma_trim_start_join(rest);
        assert(k[0] + nl + join(rest, nl) =~= k[0] + (nl + join(rest, nl)));
        lemma_trim_start_concat(k[0], nl + join(rest, nl));
        if trim_start(k[0]).len() == 0 {
            assert(nl.drop_first() =~= Seq::<char>::empty());
            assert(is_ws(nl[0]));
            assert(trim_start(nl) == trim_start(nl.drop_first()));
            assert(trim_start(nl).len() == 0);
            lemma_trim_start_concat(nl, join(rest, nl));
        } else {
            let u = k.update(0, trim_start(k[0]));
            lemma_join_front(u, nl);
            assert(u.drop_first() =~= rest);
            assert(trim_start(k[0]) + (nl + join(rest, nl)) =~= trim_start(k[0]) + nl + join(rest, nl));
        }
    }
}

pub proof fn lemma_trim_end_join(k: Seq<Seq<char>>)
    ensures
        trim_end(join(k, seq!['\n'])) == join(rtrim_lines(k), seq!['\n']),
    decreases k.len(),
{
    let nl = seq!['\n'];
    if k.len() == 0 {
    } else if k.len() == 1 {
        assert(join(k, nl) == k[0]);
        assert(k.last() == k[0]);
        if trim_end(k.last()).len() == 0 {
            assert(k.drop_last() =~= Seq::<Seq<char>>::empty());
            assert(rtrim_lines(k) == rtrim_lines(k.drop_last()));
            assert(rtrim_lines(k).len() == 0);
        } else {
            let u = k.update(0, trim_end(k.last()));
            assert(u =~= seq![trim_end(k[0])]);
            assert(rtrim_lines(k) == u);
            assert(join(u, nl) == u[0]);
        }
    } else {
        let front = k.drop_last();
        lemma_trim_end_join(front);
        assert(join(k, nl) == join(front, nl) + nl + k.last());
        lemma_trim_end_concat(join(front, nl) + nl, k.last());
        if trim_end(k.last()).len() == 0 {
            assert(nl.drop_last() =~= Seq::<char>::empty());
            assert(is_ws(nl.last()));
            assert(trim_end(nl) == trim_end(nl.drop_last()));
            assert(trim_end(nl).len() == 0);
            lemma_trim_end_concat(join(front, nl), nl);
            assert(rtrim_lines(k) == rtrim_lines(front));
            assert(trim_end(join(k, nl)) == trim_end(join(front, nl) + nl));
            assert(trim_end(join(front, nl) + nl) == trim_end(join(front, nl)));
        } else {
            let u = k.update(k.len() - 1, trim_end(k.last()));
            assert(u.drop_last() =~= front);
            assert(u.last() == trim_end(k.last()));
            assert(rtrim_lines(k) == u);
            assert(join(u, nl) == join(u.drop_last(), nl) + nl + u.last());
        }
    }
}

} // verus!

verus! {

// ---------------------------------------------------------------------
// Finding a text inside a longer one
// ---------------------------------------------------------------------

/// A text occurs in any text built around it.
pub proof fn lemma_contains_within(a: Seq<char>, p: Seq<char>, b: Seq<char>)
    ensures
        contains(a + p + b, p),
{
    assert((a + p + b).subrange(a.len() as int, (a.len() + p.len()) as int) =~= p);
    assert(occurs_at(a + p + b, p, a.len() as int));
}

/// What occurs in a text occurs in any text built around it.
pub proof fn lemma_contains_extend(a: Seq<char>, s: Seq<char>, b: Seq<char>, p: Seq<char>)
    requires
        contains(s, p),
    ensures
        contains(a + s + b, p),
{
    let i = choose|i: int| occurs_at(s, p, i);
    assert((a + s + b).subrange(a.len() + i, a.len() + i + p.len()) =~= s.subrange(i, i + p.len()));
    assert(occurs_at(a + s + b, p, a.len() + i));
}

/// `pre + x + mid + y + suf` occurs in `a + l + x + mid + y + r + t` when
/// `l` ends with `pre` and `r` starts with `suf`: a command whose pieces
/// are spread over the fixed parts of a template around two values.
pub proof fn lemma_contains_across(
    a: Seq<char>,
    l: Seq<char>,
    x: Seq<char>,
    mid: Seq<char>,
    y: Seq<char>,
    r: Seq<char>,
    t: Seq<char>,
    pre: Seq<char>,
    suf: Seq<char>,
)
    requires
        pre.len() <= l.len(),
        l.skip(l.len() - pre.len()) == pre,
        suf.len() <= r.len(),
        r.take(suf.len() as int) == suf,
    ensures
        contains(a + l + x + mid + y + r + t, pre + x + mid + y + suf),
{
    let head = a + l.take(l.len() - pre.len());
    let tail = r.skip(suf.len() as int) + t;
    assert(l =~= l.take(l.len() - pre.len()) + pre);
    assert(r =~= suf + r.skip(suf.len() as int));
    assert(a + l + x + mid + y + r + t =~= head + (pre + x + mid + y + suf) + tail);
    lemma_contains_within(head, pre + x + mid + y + suf, tail);
}

} // verus!
