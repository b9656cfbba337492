//! Verified arithmetic on POSIX-style path strings: extensions, joining,
//! and stripping a directory prefix.

use vstd::prelude::*;
use vstd::string::*;
use crate::strops::{
    drop_while, find_last_char, is_prefix, last_eq, lemma_drop_while_at, lemma_last_eq, push_char,
    str_eq,
};

verus! {

/// The slash predicate as a function value, shared by every use site.
pub open spec fn slash_fn() -> spec_fn(char) -> bool {
    |c: char| c == '/'
}

/// Index where the file name of `p` begins: just after the last slash.
pub open spec fn spec_name_start(p: Seq<char>) -> int {
    last_eq(p, '/') + 1
}

/// Index of the dot that begins the extension of `p`, or `-1` if the file
/// name has none. A dot that opens the file name marks no extension.
pub open spec fn spec_ext_dot(p: Seq<char>) -> int {
    let d = last_eq(p, '.');
    if d > spec_name_start(p) {
        d
    } else {
        -1
    }
}

/// The extension of `p`: what follows the last dot of its file name.
pub open spec fn spec_extension(p: Seq<char>) -> Option<Seq<char>> {
    let d = spec_ext_dot(p);
    if d >= 0 {
        Some(p.subrange(d + 1, p.len() as int))
    } else {
        None
    }
}

/// `p` with its extension replaced by `e`, or with `.e` appended when it
/// has none.
pub open spec fn spec_set_extension(p: Seq<char>, e: Seq<char>) -> Seq<char> {
    let d = spec_ext_dot(p);
    if d >= 0 {
        p.take(d) + seq!['.'] + e
    } else {
        p + seq!['.'] + e
    }
}

/// `a` and `b` joined with a single slash between them.
pub open spec fn spec_join(a: Seq<char>, b: Seq<char>) -> Seq<char> {
    if a.len() == 0 {
        b
    } else if a.last() == '/' {
        a + b
    } else {
        a + seq!['/'] + b
    }
}

/// What remains of `p` after its prefix `pre` and any separating slashes.
pub open spec fn spec_strip_prefix(pre: Seq<char>, p: Seq<char>) -> Seq<char> {
    drop_while(p.skip(pre.len() as int), slash_fn())
}

/// The index of the extension dot of `p`, if its file name has one.
fn find_ext_dot(p: &str) -> (r: Option<usize>)
    ensures
        match r {
            Some(d) => d as int == spec_ext_dot(p@) && d < p@.len(),
            None => spec_ext_dot(p@) == -1,
        },
{
    proof {
        lemma_last_eq(p@, '.');
        lemma_last_eq(p@, '/');
    }
    match find_last_char(p, '.') {
        None => None,
        Some(d) => {
            match find_last_char(p, '/') {
                None => {
                    if d > 0 {
                        Some(d)
                    } else {
                        None
                    }
                },
                Some(s) => {
                    if d > s && d - s > 1 {
                        Some(d)
                    } else {
                        None
                    }
                },
            }
        },
    }
}

/// Whether the file name of `p` carries the extension `e`.
pub fn path_has_extension(p: &str, e: &str) -> (r: bool)
    ensures
        r == (spec_extension(p@) == Some(e@)),
{
    match find_ext_dot(p) {
        None => false,
        Some(d) => {
            let n = p.unicode_len();
            let ext = p.substring_char(d + 1, n);
            str_eq(ext, e)
        },
    }
}

/// `p` with its extension replaced by `e`, or with `.e` appended when it
/// has none.
pub fn with_extension(p: &str, e: &str) -> (r: String)
    ensures
        r@ == spec_set_extension(p@, e@),
{
    let mut out = match find_ext_dot(p) {
        Some(d) => p.substring_char(0, d).to_owned(),
        None => p.to_owned(),
    };
    push_char(&mut out, '.');
    out.append(e);
    out
}

/// Join `a` and `b` with a single slash between them.
pub fn join_path(a: &str, b: &str) -> (r: String)
    ensures
        r@ == spec_join(a@, b@),
{
    let n = a.unicode_len();
    let mut out = a.to_owned();
    if n > 0 && a.get_char(n - 1) != '/' {
        push_char(&mut out, '/');
    }
    out.append(b);
    out
}

/// Strip the directory prefix `pre` and any separating slashes from `p`.
pub fn strip_path_prefix(p: &str, pre: &str) -> (r: String)
    requires
        is_prefix(pre@, p@),
    ensures
        r@ == spec_strip_prefix(pre@, p@),
{
    let n = p.unicode_len();
    let pn = pre.unicode_len();
    let mut a = pn;
    while a < n && p.get_char(a) == '/'
        invariant
            pn <= a <= n,
            n as nat == p@.len(),
            pn as nat == pre@.len(),
            forall|j: int| pn <= j < a ==> p@[j] == '/',
        decreases n - a,
    {
        a += 1;
    }
    let r = p.substring_char(a, n).to_owned();
    proof {
        let t = p@.skip(pn as int);
        assert(forall|j: int| 0 <= j < t.len() ==> t[j] == p@[j + pn]);
        lemma_drop_while_at(t, slash_fn(), a - pn);
        assert(t.skip(a - pn) =~= p@.subrange(a as int, n as int));
    }
    r
}

} // verus!
