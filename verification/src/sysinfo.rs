//! Human-readable figures for the server status panel: uptimes and byte
//! sizes, computed in integers exactly as the floating-point formatting of
//! the panel would print them.

use vstd::prelude::*;
use crate::text::{decimal, digit_char, push_char, push_decimal, char_of_digit, lines, trim, starts_with, ends_with, trim_start_char, trim_end_char, views, views_of_vecs};

verus! {

// ---------------------------------------------------------------------
// Uptime
// ---------------------------------------------------------------------

/// "85 天 12 小时", "2 小时 30 分" or "N 分钟" (at least one minute).
pub open spec fn uptime_text(seconds: nat) -> Seq<char> {
    let days = seconds / 86400;
    let hours = (seconds % 86400) / 3600;
    let minutes = (seconds % 3600) / 60;
    if days > 0 {
        decimal(days) + " 天 "@ + decimal(hours) + " 小时"@
    } else if hours > 0 {
        decimal(hours) + " 小时 "@ + decimal(minutes) + " 分"@
    } else {
        decimal(if minutes >= 1 { minutes } else { 1 }) + " 分钟"@
    }
}

/// Formats an uptime in seconds.
pub fn format_uptime(seconds: u64) -> (r: String)
    ensures
        r@ == uptime_text(seconds as nat),
{
    let days = seconds / 86400;
    let hours = (seconds % 86400) / 3600;
    let minutes = (seconds % 3600) / 60;
    let mut s = String::new();
    if days > 0 {
        push_decimal(&mut s, days);
        s.append(" 天 ");
        push_decimal(&mut s, hours);
        s.append(" 小时");
    } else if hours > 0 {
        push_decimal(&mut s, hours);
        s.append(" 小时 ");
        push_decimal(&mut s, minutes);
        s.append(" 分");
    } else {
        let shown = if minutes >= 1 { minutes } else { 1 };
        push_decimal(&mut s, shown);
        s.append(" 分钟");
    }
    s
}

// ---------------------------------------------------------------------
// Byte sizes
// ---------------------------------------------------------------------

/// Number of binary digits of `n` (0 for 0).
pub open spec fn bit_len(n: nat) -> nat
    decreases n,
{
    if n == 0 {
        0
    } else {
        1 + bit_len(n / 2)
    }
}

pub open spec fn two_pow(e: nat) -> nat
    decreases e,
{
    if e == 0 {
        1
    } else {
        2 * two_pow((e - 1) as nat)
    }
}

/// `num / den` rounded to the nearest integer, ties to the even one.
pub open spec fn round_half_even(num: nat, den: nat) -> nat {
    let q = num / den;
    let r = num % den;
    if r * 2 > den || (r * 2 == den && q % 2 == 1) {
        q + 1
    } else {
        q
    }
}

/// The value of `n as f64`: `n` rounded to 53 significant bits, ties to even.
pub open spec fn as_f64(n: nat) -> nat {
    if bit_len(n) <= 53 {
        n
    } else {
        let p = two_pow((bit_len(n) - 53) as nat);
        round_half_even(n, p) * p
    }
}

/// `{:.1}` of `value / unit` followed by the unit letter.
pub open spec fn one_decimal(value: nat, unit: nat, letter: char) -> Seq<char> {
    let tenths = round_half_even(10 * value, unit);
    decimal(tenths / 10) + seq!['.', digit_char(tenths % 10), letter]
}

/// "7.6G", "556.0M", "12B": the size in the largest binary unit it reaches,
/// with one decimal, or in bytes below one kibibyte.
pub open spec fn bytes_text(bytes: nat) -> Seq<char> {
    let b = as_f64(bytes);
    if b >= two_pow(40) {
        one_decimal(b, two_pow(40), 'T')
    } else if b >= two_pow(30) {
        one_decimal(b, two_pow(30), 'G')
    } else if b >= two_pow(20) {
        one_decimal(b, two_pow(20), 'M')
    } else if b >= two_pow(10) {
        one_decimal(b, two_pow(10), 'K')
    } else {
        decimal(bytes) + seq!['B']
    }
}

proof fn lemma_bit_len_bound(n: nat, k: nat)
    requires
        n < two_pow(k),
    ensures
        bit_len(n) <= k,
    decreases k,
{
    if n > 0 {
        assert(k > 0);
        lemma_bit_len_bound(n / 2, (k - 1) as nat);
    }
}

proof fn lemma_powers()
    ensures
        two_pow(10) == 1024,
        two_pow(20) == 1048576,
        two_pow(30) == 1073741824,
        two_pow(40) == 1099511627776,
        two_pow(11) == 2048,
        two_pow(64) == 0x1_0000_0000_0000_0000,
{
    reveal_with_fuel(two_pow, 12);
    assert(two_pow(10) == 1024);
    assert(two_pow(11) == 2048);
    lemma_two_pow_add(10, 10);
    lemma_two_pow_add(20, 10);
    lemma_two_pow_add(30, 10);
    lemma_two_pow_add(40, 10);
    lemma_two_pow_add(50, 10);
    lemma_two_pow_add(60, 4);
    assert(two_pow(4) == 16);
}

/// `round_half_even(num, den)` computed in 128-bit integers.
fn round_half_even_exec(num: u128, den: u128) -> (r: u128)
    requires
        den > 0,
        num / den < u128::MAX,
    ensures
        r == round_half_even(num as nat, den as nat),
{
    let q = num / den;
    let rem = num % den;
    let up = rem > den - rem || (rem == den - rem && q % 2 == 1);
    if up {
        q + 1
    } else {
        q
    }
}

/// The value of `n as f64`, as an integer.
fn f64_value(n: u64) -> (r: u128)
    ensures
        r == as_f64(n as nat),
        r <= 0x1_0000_0000_0000_0800,
{
    proof {
        lemma_powers();
        lemma_bit_len_bound(n as nat, 64);
    }
    let mut m: u64 = n;
    let mut len: u64 = 0;
    while m > 0
        invariant
            bit_len(n as nat) == len + bit_len(m as nat),
            bit_len(n as nat) <= 64,
        decreases m,
    {
        m = m / 2;
        len = len + 1;
    }
    if len <= 53 {
        return n as u128;
    }
    let shift = len - 53;
    let mut p: u128 = 1;
    let mut i: u64 = 0;
    while i < shift
        invariant
            i <= shift,
            shift <= 11,
            p == two_pow(i as nat),
            two_pow(11) == 2048,
        decreases shift - i,
    {
        proof {
            lemma_two_pow_mono((i + 1) as nat, 11);
        }
        p = p * 2;
        i = i + 1;
    }
    proof {
        lemma_two_pow_mono(0, i as nat);
    }
    let wide = n as u128;
    let q = round_half_even_exec(wide, p);
    proof {
        let qq = (n as nat) / (p as nat);
        vstd::arithmetic::div_mod::lemma_fundamental_div_mod(n as int, p as int);
        assert(q <= qq + 1);
        assert(qq * p <= n) by (nonlinear_arith)
            requires
                n == p * qq + (n as nat) % (p as nat),
                (n as nat) % (p as nat) >= 0;
        assert(q * p <= qq * p + p) by (nonlinear_arith)
            requires
                q <= qq + 1;
        assert(p <= 2048) by {
            lemma_two_pow_mono(i as nat, 11);
        }
    }
    q * p
}

proof fn lemma_two_pow_add(a: nat, b: nat)
    ensures
        two_pow(a + b) == two_pow(a) * two_pow(b),
    decreases a,
{
    if a > 0 {
        let a1 = (a - 1) as nat;
        lemma_two_pow_add(a1, b);
        assert(two_pow(a + b) == 2 * two_pow(a1 + b));
        assert(two_pow(a) == 2 * two_pow(a1));
        let x = two_pow(a1);
        let y = two_pow(b);
        assert(2 * (x * y) == (2 * x) * y) by (nonlinear_arith);
    } else {
        assert(two_pow(a) == 1);
        assert(a + b == b);
    }
}

pub proof fn lemma_two_pow_mono(a: nat, b: nat)
    requires
        a <= b,
    ensures
        two_pow(a) <= two_pow(b),
    decreases b,
{
    if a < b {
        lemma_two_pow_mono(a, (b - 1) as nat);
    }
}

/// Appends `{:.1}` of `value / unit` and the unit letter.
fn push_one_decimal(s: &mut String, value: u128, unit: u128, letter: char)
    requires
        value <= 0x1_0000_0000_0000_0800,
        unit >= 1024,
    ensures
        final(s)@ == old(s)@ + one_decimal(value as nat, unit as nat, letter),
{
    let num = 10 * value;
    assert(num / unit <= num / 1024) by {
        vstd::arithmetic::div_mod::lemma_div_is_ordered_by_denominator(num as int, 1024, unit as int);
    }
    let tenths = round_half_even_exec(num, unit);
    assert(tenths <= num / 1024 + 1);
    let whole = tenths / 10;
    assert(whole < 0x1_0000_0000_0000_0000);
    let frac = tenths % 10;
    push_decimal(s, whole as u64);
    push_char(s, '.');
    push_char(s, char_of_digit(frac as u64));
    push_char(s, letter);
    assert(s@ =~= old(s)@ + one_decimal(value as nat, unit as nat, letter)) by {
        assert(seq!['.', digit_char(frac as nat), letter] =~= seq!['.'] + seq![digit_char(frac as nat)] + seq![letter]);
    }
}

/// Formats a byte count ("7.6G", "556.0M", "12B").
pub fn format_bytes(bytes: u64) -> (r: String)
    ensures
        r@ == bytes_text(bytes as nat),
{
    proof {
        lemma_powers();
    }
    let b = f64_value(bytes);
    let mut s = String::new();
    if b >= 1099511627776 {
        push_one_decimal(&mut s, b, 1099511627776, 'T');
    } else if b >= 1073741824 {
        push_one_decimal(&mut s, b, 1073741824, 'G');
    } else if b >= 1048576 {
        push_one_decimal(&mut s, b, 1048576, 'M');
    } else if b >= 1024 {
        push_one_decimal(&mut s, b, 1024, 'K');
    } else {
        push_decimal(&mut s, bytes);
        push_char(&mut s, 'B');
    }
    assert(s@ =~= bytes_text(bytes as nat));
    s
}

// ---------------------------------------------------------------------
// Output of the Linux collection script
// ---------------------------------------------------------------------

/// A line of the form `===NAME===` (after trimming) starts a section.
pub open spec fn is_marker(line: Seq<char>) -> bool {
    starts_with(trim(line), "==="@) && ends_with(trim(line), "==="@)
}

/// The section name of a marker line: its trimmed text without the
/// surrounding '=' characters.
pub open spec fn marker_name(line: Seq<char>) -> Seq<char> {
    trim_end_char(trim_start_char(trim(line), '='), '=')
}

/// The section in force before line `k` (empty before the first marker).
pub open spec fn section_before(ls: Seq<Seq<char>>, k: int) -> Seq<char>
    decreases k,
{
    if k <= 0 {
        Seq::empty()
    } else if is_marker(ls[k - 1]) {
        marker_name(ls[k - 1])
    } else {
        section_before(ls, k - 1)
    }
}

/// The lines of section `name`, in order, over all its markers.
pub open spec fn section_lines_upto(ls: Seq<Seq<char>>, name: Seq<char>, k: int) -> Seq<Seq<char>>
    decreases k,
{
    if k <= 0 {
        Seq::empty()
    } else {
        let rest = section_lines_upto(ls, name, k - 1);
        let line = ls[k - 1];
        if !is_marker(line) && section_before(ls, k - 1).len() > 0 && section_before(ls, k - 1) == name {
            rest.push(line)
        } else {
            rest
        }
    }
}

pub open spec fn spec_section_lines(raw: Seq<char>, name: Seq<char>) -> Seq<Seq<char>> {
    section_lines_upto(lines(raw), name, lines(raw).len() as int)
}

fn marker_exec(line: &[char]) -> (r: Option<Vec<char>>)
    ensures
        match r {
            Some(n) => is_marker(line@) && n@ == marker_name(line@),
            None => !is_marker(line@),
        },
{
    let t = crate::text::trim_exec(line);
    let eq = crate::text::chars_of("===");
    if crate::text::starts_with_exec(t.as_slice(), eq.as_slice()) && crate::text::ends_with_exec(t.as_slice(), eq.as_slice()) {
        let a = crate::text::trim_start_char_exec(t.as_slice(), '=');
        let b = crate::text::trim_end_char_exec(a.as_slice(), '=');
        Some(b)
    } else {
        None
    }
}

/// The lines of one section of the collection script's output.
pub fn section_lines(raw: &str, name: &str) -> (r: Vec<String>)
    ensures
        views(r@) == spec_section_lines(raw@, name@),
{
    let v = crate::text::chars_of(raw);
    let ls = crate::text::lines_exec(v.as_slice());
    let ghost lv = views_of_vecs(ls@);
    let target = crate::text::chars_of(name);
    let mut current: Vec<char> = Vec::new();
    let mut out: Vec<String> = Vec::new();
    let mut k: usize = 0;
    while k < ls.len()
        invariant
            lv == views_of_vecs(ls@),
            lv == lines(raw@),
            target@ == name@,
            k <= ls@.len(),
            current@ == section_before(lv, k as int),
            views(out@) == section_lines_upto(lv, name@, k as int),
        decreases ls.len() - k,
    {
        let line = &ls[k];
        assert(line@ == lv[k as int]);
        match marker_exec(line.as_slice()) {
            Some(n) => {
                current = n;
            },
            None => {
                if current.len() > 0 && crate::text::chars_eq(&current, &target) {
                    let ghost before = views(out@);
                    out.push(crate::text::string_of(line.as_slice()));
                    assert(views(out@) =~= before.push(lv[k as int]));
                }
            },
        }
        k = k + 1;
    }
    out
}

/// Memory in use: total less available when the kernel reports it,
/// otherwise total less free, buffers and cache (never below zero).
pub open spec fn spec_memory_used(total: nat, free: nat, available: nat, buffers: nat, cached: nat) -> nat {
    if available > 0 {
        if total >= available { (total - available) as nat } else { 0 }
    } else {
        if total >= free + buffers + cached { (total - (free + buffers + cached)) as nat } else { 0 }
    }
}

pub fn memory_used(total: u64, free: u64, available: u64, buffers: u64, cached: u64) -> (r: u64)
    requires
        available == 0 ==> free + buffers + cached <= u64::MAX,
    ensures
        r == spec_memory_used(total as nat, free as nat, available as nat, buffers as nat, cached as nat),
{
    if available > 0 {
        total.saturating_sub(available)
    } else {
        total.saturating_sub(free + buffers + cached)
    }
}

/// Whether a mounted file system is listed: it has a size and is not
/// firmware or a snap image.
pub fn keep_disk(total: u64, mount: &str) -> (r: bool)
    ensures
        r == (total > 0 && !starts_with(mount@, "/sys/firmware"@) && !starts_with(mount@, "/snap"@)),
{
    let m = crate::text::chars_of(mount);
    let a = crate::text::chars_of("/sys/firmware");
    let b = crate::text::chars_of("/snap");
    total > 0 && !crate::text::starts_with_exec(m.as_slice(), a.as_slice()) && !crate::text::starts_with_exec(m.as_slice(), b.as_slice())
}

/// A process name: the command words from the fourth field on, joined by spaces.
pub fn process_name(fields: &Vec<Vec<char>>) -> (r: String)
    requires
        fields@.len() >= 4,
    ensures
        r@ == crate::text::join(views_of_vecs(fields@).skip(3), " "@),
{
    let mut rest: Vec<Vec<char>> = Vec::new();
    let mut i: usize = 3;
    while i < fields.len()
        invariant
            3 <= i <= fields@.len(),
            views_of_vecs(rest@) == views_of_vecs(fields@).subrange(3, i as int),
        decreases fields.len() - i,
    {
        let ghost before = views_of_vecs(rest@);
        rest.push(crate::text::copy_chars(fields[i].as_slice()));
        assert(views_of_vecs(rest@) =~= before.push(fields@[i as int]@));
        i = i + 1;
        assert(views_of_vecs(rest@) =~= views_of_vecs(fields@).subrange(3, i as int));
    }
    let sp = crate::text::chars_of(" ");
    let joined = crate::text::join_exec(&rest, sp.as_slice());
    assert(views_of_vecs(fields@).subrange(3, fields@.len() as int) =~= views_of_vecs(fields@).skip(3));
    crate::text::string_of(joined.as_slice())
}

// ---------------------------------------------------------------------
// Output of the Windows collection script
// ---------------------------------------------------------------------

/// The JSON object in the script's output: from its first '{' to its last
/// '}'; an error when either is missing.
pub fn json_fragment(raw: &str) -> (r: Result<String, String>)
    ensures
        match r {
            Ok(f) => exists|i: int, j: int| #![trigger raw@[i], raw@[j]]
                0 <= i <= j < raw@.len() && raw@[i] == '{' && raw@[j] == '}'
                && (forall|k: int| 0 <= k < i ==> raw@[k] != '{')
                && (forall|k: int| j < k < raw@.len() ==> raw@[k] != '}')
                && f@ == raw@.subrange(i, j + 1),
            Err(e) => e@ == "找不到有效的 JSON 输出"@ && ((forall|k: int| 0 <= k < raw@.len() ==> raw@[k] != '{')
                || (forall|k: int| 0 <= k < raw@.len() ==> raw@[k] != '}')
                || exists|i: int, j: int| #![trigger raw@[i], raw@[j]] 0 <= j < i < raw@.len() && raw@[i] == '{' && raw@[j] == '}'
                    && (forall|k: int| 0 <= k < i ==> raw@[k] != '{') && (forall|k: int| j < k < raw@.len() ==> raw@[k] != '}')),
        },
{
    let v = crate::text::chars_of(raw);
    let mut i: usize = 0;
    while i < v.len() && v[i] != '{'
        invariant
            i <= v@.len(),
            v@ == raw@,
            forall|k: int| 0 <= k < i ==> v@[k] != '{',
        decreases v.len() - i,
    {
        i = i + 1;
    }
    if i == v.len() {
        return Err(crate::text::owned("找不到有效的 JSON 输出"));
    }
    let j = match crate::text::rfind_char(v.as_slice(), '}') {
        Some(j) => j,
        None => return Err(crate::text::owned("找不到有效的 JSON 输出")),
    };
    if j < i {
        return Err(crate::text::owned("找不到有效的 JSON 输出"));
    }
    let mut out: Vec<char> = Vec::new();
    let mut k: usize = i;
    while k <= j
        invariant
            i <= k <= j + 1,
            j < v@.len(),
            j < v.len(),
            out@ == v@.subrange(i as int, k as int),
        decreases j + 1 - k,
    {
        out.push(v[k]);
        k = k + 1;
        assert(out@ =~= v@.subrange(i as int, k as int));
    }
    Ok(crate::text::string_of(out.as_slice()))
}

} // verus!
