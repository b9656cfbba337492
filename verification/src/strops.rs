//! Verified helpers for character-level work on strings: searching,
//! comparing, splitting into lines, trimming, and placeholder replacement.

use vstd::prelude::*;
use vstd::string::*;

verus! {

/// Index of the first element of `s` equal to `x`, or `s.len()` if none is.
pub open spec fn first_eq<T>(s: Seq<T>, x: T) -> nat
    decreases s.len(),
{
    if s.len() == 0 {
        0
    } else if s[0] == x {
        0
    } else {
        1 + first_eq(s.skip(1), x)
    }
}

/// `first_eq` points at the first occurrence: nothing before it is equal
/// to `x`, and it is in bounds exactly when `x` occurs at all.
pub proof fn lemma_first_eq<T>(s: Seq<T>, x: T)
    ensures
        first_eq(s, x) <= s.len(),
        forall|j: int| 0 <= j < first_eq(s, x) ==> s[j] != x,
        first_eq(s, x) < s.len() ==> s[first_eq(s, x) as int] == x,
    decreases s.len(),
{
    if s.len() == 0 {
    } else if s[0] == x {
    } else {
        lemma_first_eq(s.skip(1), x);
        assert forall|j: int| 0 <= j < first_eq(s, x) implies s[j] != x by {
            if j > 0 {
                assert(s.skip(1)[j - 1] == s[j]);
            }
        }
        if first_eq(s, x) < s.len() {
            assert(s.skip(1)[first_eq(s, x) - 1] == s[first_eq(s, x) as int]);
        }
    }
}

/// First index of `c` in `s`, or the length of `s` if `c` does not occur.
pub fn find_char(s: &str, c: char) -> (r: usize)
    ensures
        r as nat == first_eq(s@, c),
        r <= s@.len(),
{
    let n = s.unicode_len();
    let mut i: usize = 0;
    while i < n
        invariant
            i <= n,
            n as nat == s@.len(),
            forall|j: int| 0 <= j < i ==> s@[j] != c,
        decreases n - i,
    {
        if s.get_char(i) == c {
            proof {
                lemma_first_eq(s@, c);
            }
            return i;
        }
        i += 1;
    }
    proof {
        lemma_first_eq(s@, c);
    }
    n
}

/// Character-for-character string equality.
pub fn str_eq(a: &str, b: &str) -> (r: bool)
    ensures
        r == (a@ == b@),
{
    let an = a.unicode_len();
    let bn = b.unicode_len();
    if an != bn {
        return false;
    }
    let mut i: usize = 0;
    while i < an
        invariant
            i <= an,
            an as nat == a@.len(),
            bn as nat == b@.len(),
            an == bn,
            forall|j: int| 0 <= j < i ==> a@[j] == b@[j],
        decreases an - i,
    {
        if a.get_char(i) != b.get_char(i) {
            return false;
        }
        i += 1;
    }
    proof {
        assert(a@ =~= b@);
    }
    true
}

/// `p` occurs in `s` starting at index `i`.
pub open spec fn is_sub_at(s: Seq<char>, p: Seq<char>, i: int) -> bool {
    0 <= i && i + p.len() <= s.len() && s.subrange(i, i + p.len() as int) == p
}

/// `p` occurs somewhere in `s`.
pub open spec fn contains_sub(s: Seq<char>, p: Seq<char>) -> bool {
    exists|i: int| is_sub_at(s, p, i)
}

/// Whether `p` occurs in `s` starting at `from`.
pub fn matches_at(s: &str, from: usize, p: &str) -> (r: bool)
    requires
        from + p@.len() <= s@.len(),
    ensures
        r == is_sub_at(s@, p@, from as int),
{
    let n = s.unicode_len();
    let pn = p.unicode_len();
    let mut j: usize = 0;
    while j < pn
        invariant
            j <= pn,
            n as nat == s@.len(),
            pn as nat == p@.len(),
            from + pn <= n,
            forall|k: int| 0 <= k < j ==> s@[from + k] == p@[k],
        decreases pn - j,
    {
        if s.get_char(from + j) != p.get_char(j) {
            proof {
                assert(s@.subrange(from as int, from + p@.len())[j as int] == s@[from + j]);
            }
            return false;
        }
        j += 1;
    }
    proof {
        assert(s@.subrange(from as int, from + p@.len()) =~= p@);
    }
    true
}

/// Whether `p` occurs anywhere in `s`.
pub fn contains_substr(s: &str, p: &str) -> (r: bool)
    ensures
        r == contains_sub(s@, p@),
{
    let n = s.unicode_len();
    let pn = p.unicode_len();
    if pn > n {
        proof {
            assert(forall|i: int| !is_sub_at(s@, p@, i));
        }
        return false;
    }
    if pn == 0 {
        proof {
            assert(s@.subrange(0, 0) =~= p@);
            assert(is_sub_at(s@, p@, 0));
        }
        return true;
    }
    let mut i: usize = 0;
    while i <= n - pn
        invariant
            1 <= pn <= n,
            n as nat == s@.len(),
            pn as nat == p@.len(),
            i <= n - pn + 1,
            forall|k: int| 0 <= k < i ==> !is_sub_at(s@, p@, k),
        decreases n - i,
    {
        if matches_at(s, i, p) {
            proof {
                assert(is_sub_at(s@, p@, i as int));
            }
            return true;
        }
        i += 1;
    }
    proof {
        assert forall|k: int| !is_sub_at(s@, p@, k) by {
            if 0 <= k && k + p@.len() <= s@.len() {
                assert(k < i);
            }
        }
    }
    false
}

/// Index of the first occurrence of `p` in `s`, or the length of `s` if
/// `p` does not occur.
pub open spec fn first_sub(s: Seq<char>, p: Seq<char>) -> nat
    decreases s.len(),
{
    if p.len() == 0 {
        0
    } else if s.len() < p.len() {
        s.len()
    } else if s.take(p.len() as int) == p {
        0
    } else {
        1 + first_sub(s.skip(1), p)
    }
}

/// `first_sub` points at the first occurrence: nothing before it is one,
/// it is one whenever it leaves room for `p`, and without any occurrence
/// it is the length of `s`.
pub proof fn lemma_first_sub(s: Seq<char>, p: Seq<char>)
    ensures
        first_sub(s, p) <= s.len(),
        forall|j: int| 0 <= j < first_sub(s, p) ==> !is_sub_at(s, p, j),
        first_sub(s, p) + p.len() <= s.len() ==> is_sub_at(s, p, first_sub(s, p) as int),
        (forall|j: int| !is_sub_at(s, p, j)) ==> first_sub(s, p) == s.len(),
    decreases s.len(),
{
    if p.len() == 0 {
        assert(s.subrange(0, 0) =~= p);
        assert(is_sub_at(s, p, 0));
    } else if s.len() < p.len() {
        assert(forall|j: int| 0 <= j < s.len() ==> !is_sub_at(s, p, j));
    } else if s.take(p.len() as int) == p {
        assert(s.subrange(0, p.len() as int) == s.take(p.len() as int));
        assert(is_sub_at(s, p, 0));
    } else {
        lemma_first_sub(s.skip(1), p);
        let f = first_sub(s, p);
        assert forall|j: int| 0 <= j < f implies !is_sub_at(s, p, j) by {
            if j == 0 {
                assert(s.subrange(0, p.len() as int) == s.take(p.len() as int));
            } else if is_sub_at(s, p, j) {
                assert(s.skip(1).subrange(j - 1, j - 1 + p.len() as int) =~= s.subrange(
                    j,
                    j + p.len() as int,
                ));
                assert(is_sub_at(s.skip(1), p, j - 1));
            }
        }
        if f + p.len() <= s.len() {
            assert(is_sub_at(s.skip(1), p, f - 1));
            assert(s.skip(1).subrange(f - 1, f - 1 + p.len() as int) =~= s.subrange(
                f as int,
                f + p.len() as int,
            ));
        }
        if forall|j: int| !is_sub_at(s, p, j) {
            assert forall|j: int| !is_sub_at(s.skip(1), p, j) by {
                if is_sub_at(s.skip(1), p, j) {
                    assert(s.skip(1).subrange(j, j + p.len() as int) =~= s.subrange(
                        j + 1,
                        j + 1 + p.len() as int,
                    ));
                    assert(is_sub_at(s, p, j + 1));
                }
            }
        }
    }
}

/// First index of `p` in `s`, or the length of `s` if `p` does not occur.
pub fn find_substr(s: &str, p: &str) -> (r: usize)
    ensures
        r as nat == first_sub(s@, p@),
        r <= s@.len(),
{
    let n = s.unicode_len();
    let pn = p.unicode_len();
    proof {
        lemma_first_sub(s@, p@);
    }
    if pn > n {
        return n;
    }
    if pn == 0 {
        proof {
            assert(s@.take(0) =~= p@);
        }
        return 0;
    }
    let mut i: usize = 0;
    while i <= n - pn
        invariant
            1 <= pn <= n,
            n as nat == s@.len(),
            pn as nat == p@.len(),
            i <= n - pn + 1,
            forall|k: int| 0 <= k < i ==> !is_sub_at(s@, p@, k),
        decreases n - i,
    {
        if matches_at(s, i, p) {
            proof {
                lemma_first_sub(s@, p@);
            }
            return i;
        }
        i += 1;
    }
    proof {
        assert forall|k: int| !is_sub_at(s@, p@, k) by {
            if 0 <= k && k + p@.len() <= s@.len() {
                assert(k < i);
            }
        }
        lemma_first_sub(s@, p@);
    }
    n
}

/// Blank characters for the purposes of trimming metadata keys and values.
pub open spec fn is_blank(c: char) -> bool {
    c == ' ' || c == '\t'
}

/// The blank predicate as a function value, shared by every use site.
pub open spec fn blank_fn() -> spec_fn(char) -> bool {
    |c: char| is_blank(c)
}

/// Drop the longest prefix of `s` whose characters all satisfy `p`.
pub open spec fn drop_while(s: Seq<char>, p: spec_fn(char) -> bool) -> Seq<char>
    decreases s.len(),
{
    if s.len() > 0 && p(s[0]) {
        drop_while(s.skip(1), p)
    } else {
        s
    }
}

/// If the first `k` characters satisfy `p` and the next one does not,
/// then `drop_while` drops exactly those `k` characters.
pub proof fn lemma_drop_while_at(s: Seq<char>, p: spec_fn(char) -> bool, k: int)
    requires
        0 <= k <= s.len(),
        forall|j: int| 0 <= j < k ==> p(s[j]),
        k < s.len() ==> !p(s[k]),
    ensures
        drop_while(s, p) == s.skip(k),
    decreases k,
{
    if k == 0 {
        assert(s.skip(0) =~= s);
    } else {
        lemma_drop_while_at(s.skip(1), p, k - 1);
        assert(forall|j: int| 0 <= j < s.skip(1).len() ==> s.skip(1)[j] == s[j + 1]);
        assert(s.skip(1).skip(k - 1) =~= s.skip(k));
    }
}

/// Drop the longest suffix of `s` whose characters all satisfy `p`.
pub open spec fn drop_while_end(s: Seq<char>, p: spec_fn(char) -> bool) -> Seq<char>
    decreases s.len(),
{
    if s.len() > 0 && p(s.last()) {
        drop_while_end(s.drop_last(), p)
    } else {
        s
    }
}

/// If the characters from `k` on satisfy `p` and the one before does not,
/// then `drop_while_end` keeps exactly the first `k` characters.
pub proof fn lemma_drop_while_end_at(s: Seq<char>, p: spec_fn(char) -> bool, k: int)
    requires
        0 <= k <= s.len(),
        forall|j: int| k <= j < s.len() ==> p(s[j]),
        k > 0 ==> !p(s[k - 1]),
    ensures
        drop_while_end(s, p) == s.take(k),
    decreases s.len() - k,
{
    if k == s.len() {
        assert(s.take(k) =~= s);
    } else {
        lemma_drop_while_end_at(s.drop_last(), p, k);
        assert(s.drop_last().take(k) =~= s.take(k));
    }
}

/// `s` with leading and trailing blanks removed.
pub open spec fn spec_trim(s: Seq<char>) -> Seq<char> {
    drop_while_end(drop_while(s, blank_fn()), blank_fn())
}

/// Whether `c` counts as blank.
pub fn is_blank_char(c: char) -> (r: bool)
    ensures
        r == is_blank(c),
{
    c == ' ' || c == '\t'
}

/// `s` with leading and trailing blanks removed.
pub fn trim(s: &str) -> (r: String)
    ensures
        r@ == spec_trim(s@),
{
    let n = s.unicode_len();
    let mut a: usize = 0;
    while a < n && is_blank_char(s.get_char(a))
        invariant
            a <= n,
            n as nat == s@.len(),
            forall|j: int| 0 <= j < a ==> is_blank(s@[j]),
        decreases n - a,
    {
        a += 1;
    }
    proof {
        lemma_drop_while_at(s@, blank_fn(), a as int);
    }
    if a == n {
        let r = String::new();
        proof {
            assert(s@.skip(a as int) =~= Seq::<char>::empty());
        }
        return r;
    }
    // s@[a] is not blank, so the trimmed suffix ends at some b > a.
    let mut b: usize = n;
    while b > a + 1 && is_blank_char(s.get_char(b - 1))
        invariant
            a < b <= n,
            n as nat == s@.len(),
            !is_blank(s@[a as int]),
            forall|j: int| b <= j < n ==> is_blank(s@[j]),
        decreases b,
    {
        b -= 1;
    }
    let r = s.substring_char(a, b).to_owned();
    proof {
        let t = s@.skip(a as int);
        if is_blank(s@[b - 1]) {
            // then b == a + 1 and s@[a] is not blank, a contradiction
            assert(false);
        }
        assert(forall|j: int| b - a <= j < t.len() ==> t[j] == s@[j + a]);
        lemma_drop_while_end_at(t, blank_fn(), b - a);
        assert(t.take(b - a) =~= s@.subrange(a as int, b as int));
    }
    r
}

/// Index of the last occurrence of `c` in `s`, or `-1` if none.
pub open spec fn last_eq(s: Seq<char>, c: char) -> int
    decreases s.len(),
{
    if s.len() == 0 {
        -1
    } else if s.last() == c {
        s.len() - 1
    } else {
        last_eq(s.drop_last(), c)
    }
}

/// `last_eq` points at the last occurrence: nothing after it is equal
/// to `c`, and it is non-negative exactly when `c` occurs at all.
pub proof fn lemma_last_eq(s: Seq<char>, c: char)
    ensures
        -1 <= last_eq(s, c) < s.len(),
        last_eq(s, c) >= 0 ==> s[last_eq(s, c)] == c,
        forall|j: int| last_eq(s, c) < j < s.len() ==> s[j] != c,
    decreases s.len(),
{
    if s.len() == 0 {
    } else if s.last() == c {
    } else {
        lemma_last_eq(s.drop_last(), c);
        assert(forall|j: int| 0 <= j < s.len() - 1 ==> s.drop_last()[j] == s[j]);
    }
}

/// Index of the last occurrence of `c` in `s`, if any.
pub fn find_last_char(s: &str, c: char) -> (r: Option<usize>)
    ensures
        match r {
            Some(i) => i as int == last_eq(s@, c),
            None => last_eq(s@, c) == -1,
        },
{
    let n = s.unicode_len();
    let mut i: usize = n;
    while i > 0
        invariant
            i <= n,
            n as nat == s@.len(),
            forall|j: int| i <= j < n ==> s@[j] != c,
        decreases i,
    {
        if s.get_char(i - 1) == c {
            proof {
                lemma_last_eq(s@, c);
            }
            return Some(i - 1);
        }
        i -= 1;
    }
    proof {
        lemma_last_eq(s@, c);
    }
    None
}

/// `l` with one trailing carriage return removed, as the line reader does.
pub open spec fn strip_cr(l: Seq<char>) -> Seq<char> {
    if l.len() > 0 && l.last() == '\r' {
        l.drop_last()
    } else {
        l
    }
}

/// The lines of `s`: maximal runs between newline characters, each with a
/// trailing carriage return removed. A trailing newline ends the last line
/// rather than opening an empty one.
pub open spec fn spec_lines(s: Seq<char>) -> Seq<Seq<char>>
    decreases s.len(),
{
    if s.len() == 0 {
        seq![]
    } else {
        let i = first_eq(s, '\n');
        if i >= s.len() {
            seq![strip_cr(s)]
        } else {
            seq![strip_cr(s.take(i as int))] + spec_lines(s.skip(i as int + 1))
        }
    }
}

/// The prefix of `s` up to `to`, with one trailing carriage return removed.
fn strip_cr_prefix(s: &str, to: usize) -> (r: String)
    requires
        to as nat <= s@.len(),
    ensures
        r@ == strip_cr(s@.take(to as int)),
{
    if to > 0 && s.get_char(to - 1) == '\r' {
        let r = s.substring_char(0, to - 1).to_owned();
        proof {
            assert(s@.subrange(0, to - 1) =~= s@.take(to as int).drop_last());
        }
        r
    } else {
        let r = s.substring_char(0, to).to_owned();
        r
    }
}

/// Split `s` into its lines.
pub fn split_lines(s: &str) -> (v: Vec<String>)
    ensures
        v.deep_view() == spec_lines(s@),
    decreases s@.len(),
{
    let n = s.unicode_len();
    if n == 0 {
        let v: Vec<String> = Vec::new();
        proof {
            assert(v.deep_view() =~= spec_lines(s@));
        }
        return v;
    }
    let i = find_char(s, '\n');
    if i >= n {
        let line = strip_cr_prefix(s, n);
        let mut v: Vec<String> = Vec::new();
        v.push(line);
        proof {
            assert(s@.take(n as int) =~= s@);
            assert(v.deep_view() =~= spec_lines(s@));
        }
        v
    } else {
        let line = strip_cr_prefix(s, i);
        let rest = s.substring_char(i + 1, n);
        let mut v = split_lines(rest);
        v.insert(0, line);
        proof {
            assert(v.deep_view() =~= spec_lines(s@));
        }
        v
    }
}

/// `p` is a prefix of `s`.
pub open spec fn is_prefix(p: Seq<char>, s: Seq<char>) -> bool {
    p.len() <= s.len() && s.take(p.len() as int) == p
}

/// Whether `s` starts with `p`.
pub fn starts_with_str(s: &str, p: &str) -> (r: bool)
    ensures
        r == is_prefix(p@, s@),
{
    let n = s.unicode_len();
    let pn = p.unicode_len();
    if pn > n {
        return false;
    }
    matches_at(s, 0, p)
}

/// `s` with every occurrence of `pat` replaced by `rep`, scanning left to
/// right without overlap. An empty pattern replaces nothing.
pub open spec fn spec_replace(s: Seq<char>, pat: Seq<char>, rep: Seq<char>) -> Seq<char>
    decreases s.len(),
{
    if pat.len() == 0 || s.len() < pat.len() {
        s
    } else if s.take(pat.len() as int) == pat {
        rep + spec_replace(s.skip(pat.len() as int), pat, rep)
    } else {
        seq![s[0]] + spec_replace(s.skip(1), pat, rep)
    }
}

/// Replace every occurrence of `pat` in `s` by `rep`.
pub fn replace_all(s: &str, pat: &str, rep: &str) -> (r: String)
    ensures
        r@ == spec_replace(s@, pat@, rep@),
    decreases s@.len(),
{
    let n = s.unicode_len();
    let pn = pat.unicode_len();
    if pn == 0 || n < pn {
        return s.to_owned();
    }
    if matches_at(s, 0, pat) {
        let rest = replace_all(s.substring_char(pn, n), pat, rep);
        let mut out = rep.to_owned();
        out.append(rest.as_str());
        proof {
            assert(s@.subrange(0, pn as int) == s@.take(pn as int));
            assert(s@.subrange(pn as int, n as int) == s@.skip(pn as int));
        }
        out
    } else {
        let rest = replace_all(s.substring_char(1, n), pat, rep);
        let mut out = s.substring_char(0, 1).to_owned();
        out.append(rest.as_str());
        proof {
            assert(s@.subrange(0, 1) =~= seq![s@[0]]);
            assert(s@.subrange(1, n as int) == s@.skip(1));
            assert(s@.subrange(0, pn as int) == s@.take(pn as int));
        }
        out
    }
}

/// The decimal digit character for `d`.
pub open spec fn digit_char(d: nat) -> char {
    if d == 0 {
        '0'
    } else if d == 1 {
        '1'
    } else if d == 2 {
        '2'
    } else if d == 3 {
        '3'
    } else if d == 4 {
        '4'
    } else if d == 5 {
        '5'
    } else if d == 6 {
        '6'
    } else if d == 7 {
        '7'
    } else if d == 8 {
        '8'
    } else {
        '9'
    }
}

/// The decimal digits of `n`, most significant first.
pub open spec fn dec_digits(n: nat) -> Seq<char>
    decreases n,
{
    if n < 10 {
        seq![digit_char(n)]
    } else {
        dec_digits(n / 10).push(digit_char(n % 10))
    }
}

/// The decimal digit character for `d`.
fn digit_to_char(d: usize) -> (c: char)
    requires
        d < 10,
    ensures
        c == digit_char(d as nat),
{
    if d == 0 {
        '0'
    } else if d == 1 {
        '1'
    } else if d == 2 {
        '2'
    } else if d == 3 {
        '3'
    } else if d == 4 {
        '4'
    } else if d == 5 {
        '5'
    } else if d == 6 {
        '6'
    } else if d == 7 {
        '7'
    } else if d == 8 {
        '8'
    } else {
        '9'
    }
}

/// Relies on std's String::push: appends exactly the given character.
#[verifier::external_body]
pub fn push_char(s: &mut String, c: char)
    ensures
        final(s)@ == old(s)@.push(c),
{
    s.push(c);
}

/// `n` written in decimal.
pub fn usize_to_string(n: usize) -> (r: String)
    ensures
        r@ == dec_digits(n as nat),
    decreases n,
{
    if n < 10 {
        let mut r = String::new();
        push_char(&mut r, digit_to_char(n));
        proof {
            assert(r@ =~= dec_digits(n as nat));
        }
        r
    } else {
        let mut r = usize_to_string(n / 10);
        push_char(&mut r, digit_to_char(n % 10));
        r
    }
}

/// The placeholder pattern for value number `k`: `{k}`.
pub open spec fn placeholder_pat(k: nat) -> Seq<char> {
    seq!['{'] + dec_digits(k) + seq!['}']
}

/// `msg` with `{k}` replaced by the first value, `{k+1}` by the second,
/// and so on.
pub open spec fn apply_placeholders(msg: Seq<char>, values: Seq<Seq<char>>, k: nat) -> Seq<char>
    decreases values.len(),
{
    if values.len() == 0 {
        msg
    } else {
        apply_placeholders(spec_replace(msg, placeholder_pat(k), values[0]), values.skip(1), k + 1)
    }
}

/// `v` with one pair of matching surrounding quotes removed.
pub open spec fn spec_unquote(v: Seq<char>) -> Seq<char> {
    if v.len() >= 2 && ((v[0] == '"' && v.last() == '"') || (v[0] == '\'' && v.last() == '\'')) {
        v.subrange(1, v.len() - 1)
    } else {
        v
    }
}

/// Remove one pair of matching surrounding quotes from `s`, if present.
pub fn unquote(s: &str) -> (r: String)
    ensures
        r@ == spec_unquote(s@),
{
    let n = s.unicode_len();
    if n >= 2 {
        let f = s.get_char(0);
        let l = s.get_char(n - 1);
        if (f == '"' && l == '"') || (f == '\'' && l == '\'') {
            return s.substring_char(1, n - 1).to_owned();
        }
    }
    s.to_owned()
}

/// The parts joined into one text with `sep` between neighbours.
pub open spec fn spec_join_sep(parts: Seq<Seq<char>>, sep: Seq<char>) -> Seq<char>
    decreases parts.len(),
{
    if parts.len() == 0 {
        Seq::empty()
    } else if parts.len() == 1 {
        parts[0]
    } else {
        parts[0] + sep + spec_join_sep(parts.skip(1), sep)
    }
}

/// Joining one more part appends a separator and the part.
pub proof fn lemma_join_sep_push(parts: Seq<Seq<char>>, sep: Seq<char>, l: Seq<char>)
    requires
        parts.len() > 0,
    ensures
        spec_join_sep(parts.push(l), sep) == spec_join_sep(parts, sep) + sep + l,
    decreases parts.len(),
{
    if parts.len() == 1 {
        assert(parts.push(l)[0] == parts[0]);
        assert(parts.push(l).skip(1) =~= seq![l]);
        assert(spec_join_sep(seq![l], sep) == l);
        assert(spec_join_sep(parts.push(l), sep) =~= spec_join_sep(parts, sep) + sep + l);
    } else {
        lemma_join_sep_push(parts.skip(1), sep, l);
        assert(parts.push(l).skip(1) =~= parts.skip(1).push(l));
        assert(parts.push(l)[0] == parts[0]);
        assert(spec_join_sep(parts.push(l), sep) =~= spec_join_sep(parts, sep) + sep + l);
    }
}

/// Join `parts[from..to]` into one text with `sep` between neighbours.
pub fn join_sep_range(parts: &Vec<String>, from: usize, to: usize, sep: &str) -> (r: String)
    requires
        from <= to <= parts@.len(),
    ensures
        r@ == spec_join_sep(parts.deep_view().subrange(from as int, to as int), sep@),
{
    let mut out = String::new();
    if from == to {
        proof {
            assert(parts.deep_view().subrange(from as int, to as int) =~= Seq::<
                Seq<char>,
            >::empty());
        }
        return out;
    }
    out.append(parts[from].as_str());
    let mut k = from + 1;
    proof {
        assert(parts.deep_view().subrange(from as int, from + 1) =~= seq![
            parts.deep_view()[from as int],
        ]);
        assert(out@ == spec_join_sep(parts.deep_view().subrange(from as int, from + 1), sep@));
    }
    while k < to
        invariant
            from < k <= to <= parts@.len(),
            out@ == spec_join_sep(parts.deep_view().subrange(from as int, k as int), sep@),
        decreases to - k,
    {
        out.append(sep);
        out.append(parts[k].as_str());
        proof {
            let dv = parts.deep_view();
            assert(dv.subrange(from as int, k + 1) =~= dv.subrange(from as int, k as int).push(
                dv[k as int],
            ));
            lemma_join_sep_push(dv.subrange(from as int, k as int), sep@, dv[k as int]);
            assert(out@ =~= spec_join_sep(dv.subrange(from as int, k + 1), sep@));
        }
        k += 1;
    }
    out
}

/// Join the parts with `sep` between neighbours.
pub fn join_sep(parts: &Vec<String>, sep: &str) -> (r: String)
    ensures
        r@ == spec_join_sep(parts.deep_view(), sep@),
{
    let mut out = String::new();
    let n = parts.len();
    if n == 0 {
        return out;
    }
    out.append(parts[0].as_str());
    let mut k: usize = 1;
    proof {
        assert(parts.deep_view().subrange(0, 1) =~= seq![parts.deep_view()[0]]);
        assert(out@ == spec_join_sep(parts.deep_view().subrange(0, 1), sep@));
    }
    while k < n
        invariant
            1 <= k <= n,
            n == parts@.len(),
            out@ == spec_join_sep(parts.deep_view().subrange(0, k as int), sep@),
        decreases n - k,
    {
        out.append(sep);
        out.append(parts[k].as_str());
        proof {
            let dv = parts.deep_view();
            assert(dv.subrange(0, k + 1) =~= dv.subrange(0, k as int).push(dv[k as int]));
            lemma_join_sep_push(dv.subrange(0, k as int), sep@, dv[k as int]);
            assert(out@ =~= spec_join_sep(dv.subrange(0, k + 1), sep@));
        }
        k += 1;
    }
    proof {
        assert(parts.deep_view().subrange(0, n as int) =~= parts.deep_view());
    }
    out
}

} // verus!
