//! Character-level text helpers shared by the rest of the library.
//!
//! Strings are reasoned about through their view, a `Seq<char>`. The helpers
//! here build strings one piece at a time and state exactly what they append.

use vstd::prelude::*;

verus! {

/// The decimal digit character for `d` (0..=9).
pub open spec fn digit_char(d: nat) -> char {
    if d == 0 { '0' }
    else if d == 1 { '1' }
    else if d == 2 { '2' }
    else if d == 3 { '3' }
    else if d == 4 { '4' }
    else if d == 5 { '5' }
    else if d == 6 { '6' }
    else if d == 7 { '7' }
    else if d == 8 { '8' }
    else { '9' }
}

/// Decimal representation of a natural number, without leading zeros.
pub open spec fn decimal(n: nat) -> Seq<char>
    decreases n,
{
    if n < 10 {
        seq![digit_char(n)]
    } else {
        decimal(n / 10).push(digit_char(n % 10))
    }
}

/// Every character of a decimal representation is a digit.
pub proof fn lemma_decimal_digits(n: nat)
    ensures
        decimal(n).len() >= 1,
        forall|k: int| 0 <= k < decimal(n).len() ==> '0' <= #[trigger] decimal(n)[k] <= '9',
    decreases n,
{
    if n >= 10 {
        lemma_decimal_digits(n / 10);
    }
}

/// Different numbers have different decimal representations.
pub proof fn lemma_decimal_injective(i: nat, j: nat)
    requires
        decimal(i) == decimal(j),
    ensures
        i == j,
    decreases i,
{
    if i < 10 && j < 10 {
        assert(decimal(i)[0] == digit_char(i));
        assert(decimal(j)[0] == digit_char(j));
    } else if i < 10 {
        lemma_decimal_digits(j / 10);
        assert(decimal(j).len() >= 2);
    } else if j < 10 {
        lemma_decimal_digits(i / 10);
        assert(decimal(i).len() >= 2);
    } else {
        assert(decimal(i).drop_last() =~= decimal(i / 10));
        assert(decimal(j).drop_last() =~= decimal(j / 10));
        assert(digit_char(i % 10) == decimal(i).last());
        assert(digit_char(j % 10) == decimal(j).last());
        lemma_decimal_injective(i / 10, j / 10);
        assert(i % 10 == j % 10);
        assert(i == 10 * (i / 10) + i % 10) by (nonlinear_arith);
        assert(j == 10 * (j / 10) + j % 10) by (nonlinear_arith);
    }
}

/// Rust's `char::is_whitespace`: the Unicode `White_Space` property.
pub open spec fn is_white_space(c: char) -> bool {
    ||| ('\u{9}' <= c && c <= '\u{d}')
    ||| c == ' '
    ||| c == '\u{85}'
    ||| c == '\u{a0}'
    ||| c == '\u{1680}'
    ||| ('\u{2000}' <= c && c <= '\u{200a}')
    ||| c == '\u{2028}'
    ||| c == '\u{2029}'
    ||| c == '\u{202f}'
    ||| c == '\u{205f}'
    ||| c == '\u{3000}'
}

/// A text is blank when trimming it leaves nothing, i.e. every character is white space.
pub open spec fn is_blank(s: Seq<char>) -> bool {
    forall|i: int| 0 <= i < s.len() ==> is_white_space(#[trigger] s[i])
}

/// Every occurrence of `from` in `s` replaced by `to`.
pub open spec fn replace_char(s: Seq<char>, from: char, to: char) -> Seq<char> {
    s.map_values(|c: char| if c == from { to } else { c })
}

/// `s` begins with `p`.
pub open spec fn has_prefix(s: Seq<char>, p: Seq<char>) -> bool {
    p.len() <= s.len() && s.subrange(0, p.len() as int) == p
}

/// `s` ends with `p`.
pub open spec fn has_suffix(s: Seq<char>, p: Seq<char>) -> bool {
    p.len() <= s.len() && s.subrange(s.len() - p.len(), s.len() as int) == p
}

/// Index of the first occurrence of `c` in `s`, or the length of `s` when absent.
pub open spec fn first_index_of(s: Seq<char>, c: char) -> nat
    decreases s.len(),
{
    if s.len() == 0 {
        0
    } else if s[0] == c {
        0
    } else {
        1 + first_index_of(s.drop_first(), c)
    }
}

/// Appends `c` to `s` (std's `String::push`).
#[verifier::external_body]
pub(crate) fn push_char(s: &mut String, c: char)
    ensures
        final(s)@ == old(s)@.push(c),
{
    s.push(c);
}

/// Appends the text of `t` to `s`.
pub fn push_str(s: &mut String, t: &str)
    ensures
        final(s)@ == old(s)@ + t@,
{
    s.append(t);
}

/// A fresh string holding the characters of `t`.
pub fn string_of(t: &str) -> (r: String)
    ensures
        r@ == t@,
{
    String::from_str(t)
}

/// The characters of a string slice, in order.
pub fn chars_of(s: &str) -> (v: Vec<char>)
    ensures
        v@ == s@,
{
    let mut v: Vec<char> = Vec::new();
    for c in it: s.chars()
        invariant
            it.seq() == s@,
            v@ == s@.take(it.index() as int),
            it.index() == s@.len() ==> v@ == s@,
    {
        v.push(c);
        assert(v@ =~= s@.take(it.index() + 1));
        assert(s@.take(s@.len() as int) =~= s@);
    }
    v
}

/// A string built from a sequence of characters.
pub fn string_from_chars(v: &[char]) -> (r: String)
    ensures
        r@ == v@,
{
    let mut r = String::new();
    let n = v.len();
    let mut i: usize = 0;
    while i < n
        invariant
            i <= n,
            n == v@.len(),
            r@ == v@.subrange(0, i as int),
        decreases n - i,
    {
        push_char(&mut r, v[i]);
        i = i + 1;
        assert(r@ =~= v@.subrange(0, i as int));
    }
    assert(v@.subrange(0, n as int) =~= v@);
    r
}

/// The characters `v[from..to]` as a string.
pub fn string_from_range(v: &Vec<char>, from: usize, to: usize) -> (r: String)
    requires
        from <= to <= v@.len(),
    ensures
        r@ == v@.subrange(from as int, to as int),
{
    let mut r = String::new();
    let mut i: usize = from;
    while i < to
        invariant
            from <= i <= to,
            to <= v@.len(),
            r@ == v@.subrange(from as int, i as int),
        decreases to - i,
    {
        push_char(&mut r, v[i]);
        i = i + 1;
        assert(r@ =~= v@.subrange(from as int, i as int));
    }
    r
}

/// The decimal character for a single digit.
pub fn digit_to_char(d: u64) -> (c: char)
    requires
        d < 10,
    ensures
        c == digit_char(d as nat),
{
    if d == 0 { '0' }
    else if d == 1 { '1' }
    else if d == 2 { '2' }
    else if d == 3 { '3' }
    else if d == 4 { '4' }
    else if d == 5 { '5' }
    else if d == 6 { '6' }
    else if d == 7 { '7' }
    else if d == 8 { '8' }
    else { '9' }
}

/// Appends the decimal representation of `n` to `s`.
pub fn push_decimal(s: &mut String, n: u64)
    ensures
        final(s)@ == old(s)@ + decimal(n as nat),
    decreases n,
{
    if n >= 10 {
        push_decimal(s, n / 10);
    }
    let c = digit_to_char(n % 10);
    push_char(s, c);
    assert(final(s)@ =~= old(s)@ + decimal(n as nat));
}

/// The decimal representation of `n`.
pub fn decimal_string(n: u64) -> (r: String)
    ensures
        r@ == decimal(n as nat),
{
    let mut r = String::new();
    push_decimal(&mut r, n);
    assert(r@ =~= decimal(n as nat));
    r
}

/// Whether two string slices hold the same characters.
pub fn str_eq(a: &str, b: &str) -> (r: bool)
    ensures
        r == (a@ == b@),
{
    let x = String::from_str(a);
    let y = String::from_str(b);
    x == y
}

/// Whether `c` is white space in the sense of `char::is_whitespace`.
pub fn char_is_white_space(c: char) -> (r: bool)
    ensures
        r == is_white_space(c),
{
    ('\u{9}' <= c && c <= '\u{d}') || c == ' ' || c == '\u{85}' || c == '\u{a0}'
        || c == '\u{1680}' || ('\u{2000}' <= c && c <= '\u{200a}') || c == '\u{2028}'
        || c == '\u{2029}' || c == '\u{202f}' || c == '\u{205f}' || c == '\u{3000}'
}

/// Whether every character of `s` is white space (`s.trim().is_empty()`).
pub fn str_is_blank(s: &str) -> (r: bool)
    ensures
        r == is_blank(s@),
{
    let mut blank = true;
    for c in it: s.chars()
        invariant
            it.seq() == s@,
            blank == is_blank(s@.take(it.index() as int)),
            it.index() == s@.len() ==> blank == is_blank(s@),
    {
        let ghost prefix = it.seq().take(it.index() as int);
        let w = char_is_white_space(c);
        blank = blank && w;
        proof {
            let next = it.seq().take(it.index() + 1);
            assert(next =~= prefix.push(c));
            if blank {
                assert forall|i: int| 0 <= i < next.len() implies is_white_space(#[trigger] next[i]) by {
                    if i < prefix.len() {
                        assert(next[i] == prefix[i]);
                    }
                }
            } else {
                if !w {
                    assert(!is_white_space(next[next.len() - 1]));
                } else {
                    let j = choose|j: int| 0 <= j < prefix.len() && !is_white_space(#[trigger] prefix[j]);
                    assert(next[j] == prefix[j]);
                }
            }
            assert(s@.take(s@.len() as int) =~= s@);
        }
    }
    blank
}

/// Whether `s` ends with `p`.
pub fn chars_end_with(s: &Vec<char>, p: &Vec<char>) -> (r: bool)
    ensures
        r == has_suffix(s@, p@),
{
    if p.len() > s.len() {
        return false;
    }
    let off = s.len() - p.len();
    let mut i: usize = 0;
    while i < p.len()
        invariant
            i <= p@.len(),
            off + p@.len() == s@.len(),
            s@.len() == s.len(),
            forall|k: int| 0 <= k < i ==> s@[off + k] == p@[k],
        decreases p@.len() - i,
    {
        if s[off + i] != p[i] {
            assert(s@.subrange(off as int, s@.len() as int)[i as int] != p@[i as int]);
            return false;
        }
        i = i + 1;
    }
    assert(s@.subrange(off as int, s@.len() as int) =~= p@);
    true
}

/// Whether `s` begins with `p`.
pub fn chars_start_with(s: &Vec<char>, p: &Vec<char>) -> (r: bool)
    ensures
        r == has_prefix(s@, p@),
{
    if p.len() > s.len() {
        return false;
    }
    let mut i: usize = 0;
    while i < p.len()
        invariant
            i <= p@.len(),
            p@.len() <= s@.len(),
            forall|k: int| 0 <= k < i ==> s@[k] == p@[k],
        decreases p@.len() - i,
    {
        if s[i] != p[i] {
            assert(s@.subrange(0, p@.len() as int)[i as int] != p@[i as int]);
            return false;
        }
        i = i + 1;
    }
    assert(s@.subrange(0, p@.len() as int) =~= p@);
    true
}

/// Whether `s` ends with `p`.
pub fn str_ends_with(s: &str, p: &str) -> (r: bool)
    ensures
        r == has_suffix(s@, p@),
{
    let sv = chars_of(s);
    let pv = chars_of(p);
    chars_end_with(&sv, &pv)
}

/// Whether `s` begins with `p`.
pub fn str_starts_with(s: &str, p: &str) -> (r: bool)
    ensures
        r == has_prefix(s@, p@),
{
    let sv = chars_of(s);
    let pv = chars_of(p);
    chars_start_with(&sv, &pv)
}

/// `s` with every `from` replaced by `to`.
pub fn str_replace_char(s: &str, from: char, to: char) -> (r: String)
    ensures
        r@ == replace_char(s@, from, to),
{
    let mut r = String::new();
    for c in it: s.chars()
        invariant
            it.seq() == s@,
            r@ == replace_char(s@.take(it.index() as int), from, to),
            it.index() == s@.len() ==> r@ == replace_char(s@, from, to),
    {
        let d = if c == from { to } else { c };
        push_char(&mut r, d);
        assert(r@ =~= replace_char(s@.take(it.index() + 1), from, to));
        assert(s@.take(s@.len() as int) =~= s@);
    }
    r
}

/// Index of the first `c` in `v` at or after `start`, or the length of `v`.
pub fn find_char_from(v: &Vec<char>, start: usize, c: char) -> (r: usize)
    requires
        start <= v@.len(),
    ensures
        start <= r <= v@.len(),
        r == start + first_index_of(v@.subrange(start as int, v@.len() as int), c),
        r < v@.len() ==> v@[r as int] == c,
        forall|k: int| start <= k < r ==> v@[k] != c,
{
    let mut i = start;
    while i < v.len() && v[i] != c
        invariant
            start <= i <= v@.len(),
            forall|k: int| start <= k < i ==> v@[k] != c,
        decreases v@.len() - i,
    {
        i = i + 1;
    }
    proof {
        lemma_first_index_of(v@.subrange(start as int, v@.len() as int), c, (i - start) as nat);
    }
    i
}

/// The first index of `c` is the position `k` when all earlier characters differ and
/// `k` holds `c` or is the end.
pub proof fn lemma_first_index_of(s: Seq<char>, c: char, k: nat)
    requires
        k <= s.len(),
        forall|j: int| 0 <= j < k ==> s[j] != c,
        k < s.len() ==> s[k as int] == c,
    ensures
        first_index_of(s, c) == k,
    decreases k,
{
    if k > 0 {
        lemma_first_index_of(s.drop_first(), c, (k - 1) as nat);
    }
}

/// The first index of `c` is at most the length, and nothing before it is `c`.
pub proof fn lemma_first_index_of_bounds(s: Seq<char>, c: char)
    ensures
        first_index_of(s, c) <= s.len(),
        forall|j: int| 0 <= j < first_index_of(s, c) ==> s[j] != c,
        first_index_of(s, c) < s.len() ==> s[first_index_of(s, c) as int] == c,
    decreases s.len(),
{
    if s.len() > 0 && s[0] != c {
        lemma_first_index_of_bounds(s.drop_first(), c);
        assert forall|j: int| 0 <= j < first_index_of(s, c) implies s[j] != c by {
            if j > 0 {
                assert(s[j] == s.drop_first()[j - 1]);
            }
        }
    }
}

/// A line without the carriage return that preceded its line feed.
pub open spec fn strip_cr(line: Seq<char>) -> Seq<char> {
    if line.len() > 0 && line.last() == '\r' {
        line.drop_last()
    } else {
        line
    }
}

/// The lines of a text as `str::lines` yields them: split at each line feed, a
/// carriage return before the line feed removed, and no empty line after a final
/// line feed.
pub open spec fn text_lines(s: Seq<char>) -> Seq<Seq<char>>
    decreases s.len(),
{
    if s.len() == 0 {
        Seq::empty()
    } else {
        let i = first_index_of(s, '\n');
        if i >= s.len() {
            seq![s]
        } else {
            seq![strip_cr(s.take(i as int))] + text_lines(s.subrange(i as int + 1, s.len() as int))
        }
    }
}

/// The lines of `v[start..]`, as `str::lines` yields them.
pub fn split_lines_from(v: &Vec<char>, start: usize) -> (r: Vec<String>)
    requires
        start <= v@.len(),
    ensures
        r@.map_values(|l: String| l@) == text_lines(v@.subrange(start as int, v@.len() as int)),
    decreases v@.len() - start,
{
    let ghost s = v@.subrange(start as int, v@.len() as int);
    if start == v.len() {
        return Vec::new();
    }
    let i = find_char_from(v, start, '\n');
    if i == v.len() {
        let line = string_from_range(v, start, v.len());
        let mut r = Vec::new();
        r.push(line);
        assert(r@.map_values(|l: String| l@) =~= text_lines(s));
        return r;
    }
    let mut end = i;
    if end > start && v[end - 1] == '\r' {
        end = end - 1;
    }
    let line = string_from_range(v, start, end);
    assert(line@ == strip_cr(s.take((i - start) as int))) by {
        assert(s.take((i - start) as int) =~= v@.subrange(start as int, i as int));
        if i > start && v@[i - 1] == '\r' {
            assert(v@.subrange(start as int, i as int).drop_last() =~= v@.subrange(start as int, end as int));
        }
    }
    let rest = split_lines_from(v, i + 1);
    let mut r = Vec::new();
    r.push(line);
    let mut k: usize = 0;
    while k < rest.len()
        invariant
            k <= rest@.len(),
            r@.len() == k + 1,
            r@[0] == line,
            forall|j: int| 0 <= j < k ==> r@[j + 1] == rest@[j],
        decreases rest@.len() - k,
    {
        r.push(rest[k].clone());
        k = k + 1;
    }
    proof {
        assert(v@.subrange(i + 1, v@.len() as int) =~= s.subrange((i - start) + 1, s.len() as int));
        assert(r@.map_values(|l: String| l@) =~= seq![line@] + rest@.map_values(|l: String| l@));
    }
    r
}

/// The lines of a text, as `str::lines` yields them.
pub fn split_lines(s: &str) -> (r: Vec<String>)
    ensures
        r@.map_values(|l: String| l@) == text_lines(s@),
{
    let v = chars_of(s);
    let r = split_lines_from(&v, 0);
    assert(v@.subrange(0, v@.len() as int) =~= s@);
    r
}

/// Every non-overlapping occurrence of `pat` in `s`, scanning left to right, replaced
/// by `rep` (`str::replace` with a non-empty pattern).
pub open spec fn replace_all(s: Seq<char>, pat: Seq<char>, rep: Seq<char>) -> Seq<char>
    decreases s.len(),
{
    if s.len() == 0 {
        Seq::empty()
    } else if pat.len() > 0 && has_prefix(s, pat) {
        rep + replace_all(s.subrange(pat.len() as int, s.len() as int), pat, rep)
    } else {
        seq![s[0]] + replace_all(s.drop_first(), pat, rep)
    }
}

/// Whether `p` occurs in `v` at position `at`.
pub fn occurs_at(v: &Vec<char>, at: usize, p: &Vec<char>) -> (r: bool)
    requires
        at <= v@.len(),
    ensures
        r == has_prefix(v@.subrange(at as int, v@.len() as int), p@),
{
    let ghost s = v@.subrange(at as int, v@.len() as int);
    if p.len() > v.len() - at {
        return false;
    }
    let mut i: usize = 0;
    while i < p.len()
        invariant
            i <= p@.len(),
            at + p@.len() <= v@.len(),
            v@.len() == v.len(),
            s == v@.subrange(at as int, v@.len() as int),
            forall|k: int| 0 <= k < i ==> v@[at + k] == p@[k],
        decreases p@.len() - i,
    {
        if v[at + i] != p[i] {
            assert(s.subrange(0, p@.len() as int)[i as int] != p@[i as int]);
            return false;
        }
        i = i + 1;
    }
    assert(s.subrange(0, p@.len() as int) =~= p@);
    true
}

/// `s` with every occurrence of the non-empty pattern `pat` replaced by `rep`.
pub fn str_replace(s: &str, pat: &str, rep: &str) -> (r: String)
    requires
        pat@.len() > 0,
    ensures
        r@ == replace_all(s@, pat@, rep@),
{
    let v = chars_of(s);
    let pv = chars_of(pat);
    let n = v.len();
    let mut r = String::new();
    let mut i: usize = 0;
    assert(v@.subrange(0, n as int) =~= s@);
    while i < n
        invariant
            i <= n,
            n == v@.len(),
            pv@ == pat@,
            pat@.len() > 0,
            r@ + replace_all(v@.subrange(i as int, n as int), pat@, rep@) == replace_all(s@, pat@, rep@),
        decreases n - i,
    {
        let ghost rest = v@.subrange(i as int, n as int);
        if occurs_at(&v, i, &pv) {
            push_str(&mut r, rep);
            proof {
                assert(rest.subrange(pat@.len() as int, rest.len() as int) =~= v@.subrange(i + pat@.len(), n as int));
            }
            i = i + pv.len();
        } else {
            push_char(&mut r, v[i]);
            proof {
                assert(rest.drop_first() =~= v@.subrange(i + 1, n as int));
            }
            i = i + 1;
        }
    }
    assert(v@.subrange(n as int, n as int) =~= Seq::<char>::empty());
    assert(r@ + Seq::<char>::empty() =~= r@);
    r
}

/// The part of `s` before the first `sep`, and the part between the first and the
/// second `sep` (empty when there is no first `sep`).
pub open spec fn first_part(s: Seq<char>, sep: char) -> Seq<char> {
    s.take(first_index_of(s, sep) as int)
}

/// The second `sep`-separated part of `s`, or empty when `s` has a single part.
pub open spec fn second_part(s: Seq<char>, sep: char) -> Seq<char> {
    let i = first_index_of(s, sep);
    if i >= s.len() {
        Seq::empty()
    } else {
        first_part(s.subrange(i as int + 1, s.len() as int), sep)
    }
}

/// The first two `sep`-separated parts of `s` (`split(sep)` items 0 and 1, each
/// empty when missing).
#[verifier::rlimit(30)]
pub fn first_two_parts(s: &str, sep: char) -> (r: (String, String))
    ensures
        r.0@ == first_part(s@, sep),
        r.1@ == second_part(s@, sep),
{
    let v = chars_of(s);
    let i = find_char_from(&v, 0, sep);
    assert(v@.subrange(0, v@.len() as int) =~= v@);
    let a = string_from_range(&v, 0, i);
    if i == v.len() {
        return (a, String::new());
    }
    let j = find_char_from(&v, i + 1, sep);
    let b = string_from_range(&v, i + 1, j);
    proof {
        let rest = v@.subrange(i + 1, v@.len() as int);
        assert(rest.take(first_index_of(rest, sep) as int) =~= v@.subrange(i + 1, j as int));
    }
    (a, b)
}

/// How many white-space characters open `s`.
pub open spec fn leading_white(s: Seq<char>) -> nat
    decreases s.len(),
{
    if s.len() > 0 && is_white_space(s[0]) {
        1 + leading_white(s.drop_first())
    } else {
        0
    }
}

/// How many white-space characters close `s`.
pub open spec fn trailing_white(s: Seq<char>) -> nat
    decreases s.len(),
{
    if s.len() > 0 && is_white_space(s.last()) {
        1 + trailing_white(s.drop_last())
    } else {
        0
    }
}

/// `s` without leading and trailing white space (`str::trim`).
pub open spec fn trimmed(s: Seq<char>) -> Seq<char> {
    let start = leading_white(s);
    let rest = s.subrange(start as int, s.len() as int);
    rest.subrange(0, rest.len() - trailing_white(rest))
}

proof fn lemma_leading_white_exact(s: Seq<char>, n: nat)
    requires
        n <= s.len(),
        forall|k: int| 0 <= k < n ==> is_white_space(#[trigger] s[k]),
        n < s.len() ==> !is_white_space(s[n as int]),
    ensures
        leading_white(s) == n,
    decreases n,
{
    if n > 0 {
        assert forall|k: int| 0 <= k < n - 1 implies is_white_space(#[trigger] s.drop_first()[k]) by {
            assert(s.drop_first()[k] == s[k + 1]);
        }
        lemma_leading_white_exact(s.drop_first(), (n - 1) as nat);
    }
}

proof fn lemma_trailing_white_exact(s: Seq<char>, n: nat)
    requires
        n <= s.len(),
        forall|k: int| s.len() - n <= k < s.len() ==> is_white_space(#[trigger] s[k]),
        n < s.len() ==> !is_white_space(s[s.len() - n - 1]),
    ensures
        trailing_white(s) == n,
    decreases n,
{
    if n > 0 {
        assert forall|k: int| s.drop_last().len() - (n - 1) <= k < s.drop_last().len() implies is_white_space(
            #[trigger] s.drop_last()[k],
        ) by {
            assert(s.drop_last()[k] == s[k]);
        }
        lemma_trailing_white_exact(s.drop_last(), (n - 1) as nat);
    }
}

/// `s` without leading and trailing white space.
pub fn trim(s: &str) -> (r: String)
    ensures
        r@ == trimmed(s@),
{
    let v = chars_of(s);
    let n = v.len();
    let mut start: usize = 0;
    while start < n && char_is_white_space(v[start])
        invariant
            start <= n,
            n == v@.len(),
            forall|k: int| 0 <= k < start ==> is_white_space(#[trigger] v@[k]),
        decreases n - start,
    {
        start = start + 1;
    }
    proof {
        lemma_leading_white_exact(v@, start as nat);
    }
    let mut end: usize = n;
    while end > start && char_is_white_space(v[end - 1])
        invariant
            start <= end <= n,
            n == v@.len(),
            forall|k: int| end <= k < n ==> is_white_space(#[trigger] v@[k]),
        decreases end,
    {
        end = end - 1;
    }
    proof {
        let rest = v@.subrange(start as int, n as int);
        assert forall|k: int| rest.len() - (n - end) <= k < rest.len() implies is_white_space(#[trigger] rest[k]) by {
            assert(rest[k] == v@[start + k]);
        }
        if end > start {
            assert(rest[rest.len() - (n - end) - 1] == v@[end - 1]);
        }
        lemma_trailing_white_exact(rest, (n - end) as nat);
        assert(rest.subrange(0, rest.len() - (n - end)) =~= v@.subrange(start as int, end as int));
    }
    string_from_range(&v, start, end)
}

} // verus!
