//! The line-oriented `key: value` metadata notation used by content files
//! and by the site configuration.
//!
//! Each line holds at most one pair: the text before the first colon is the
//! key, the text after it the value, both trimmed of blanks, the value with
//! one pair of surrounding quotes removed. A line that begins with a blank
//! belongs to an indented, nested structure that this flat reader does not
//! enter; it holds no pair, as a YAML reader would hold no top-level pair
//! there. A line without a colon, or with an empty key, holds no pair; a
//! pair whose value is empty counts as a key set to nothing, the way an
//! empty scalar does in YAML.

use vstd::prelude::*;
use vstd::string::*;
use crate::strops::{
    find_char, first_eq, is_blank, is_blank_char, lemma_first_eq, spec_trim, spec_unquote, trim,
    unquote,
};

verus! {

/// The pair held by one metadata line, if any. The value is `None` when
/// the key is set to an empty scalar; an indented line holds no pair.
pub open spec fn spec_parse_line(l: Seq<char>) -> Option<(Seq<char>, Option<Seq<char>>)> {
    let i = first_eq(l, ':');
    if l.len() > 0 && is_blank(l[0]) {
        None
    } else if i >= l.len() {
        None
    } else {
        let key = spec_trim(l.take(i as int));
        let raw = spec_unquote(spec_trim(l.skip(i as int + 1)));
        if key.len() == 0 {
            None
        } else if raw.len() == 0 {
            Some((key, None))
        } else {
            Some((key, Some(raw)))
        }
    }
}

/// The pairs held by a block of metadata lines, in line order.
pub open spec fn spec_parse_pairs(lines: Seq<Seq<char>>) -> Seq<(Seq<char>, Option<Seq<char>>)>
    decreases lines.len(),
{
    if lines.len() == 0 {
        seq![]
    } else {
        match spec_parse_line(lines[0]) {
            Some(p) => seq![p] + spec_parse_pairs(lines.skip(1)),
            None => spec_parse_pairs(lines.skip(1)),
        }
    }
}

/// One more line contributes its pair, if it holds one.
pub proof fn lemma_parse_pairs_push(lines: Seq<Seq<char>>, l: Seq<char>)
    ensures
        spec_parse_pairs(lines.push(l)) == spec_parse_pairs(lines) + (match spec_parse_line(l) {
            Some(p) => seq![p],
            None => Seq::<(Seq<char>, Option<Seq<char>>)>::empty(),
        }),
    decreases lines.len(),
{
    reveal_with_fuel(spec_parse_pairs, 3);
    let tail = match spec_parse_line(l) {
        Some(p) => seq![p],
        None => Seq::<(Seq<char>, Option<Seq<char>>)>::empty(),
    };
    if lines.len() == 0 {
        assert(lines.push(l)[0] == l);
        assert(lines.push(l).skip(1) =~= Seq::<Seq<char>>::empty());
        assert(spec_parse_pairs(lines.push(l)) =~= spec_parse_pairs(lines) + tail);
    } else {
        lemma_parse_pairs_push(lines.skip(1), l);
        assert(lines.push(l).skip(1) =~= lines.skip(1).push(l));
        assert(lines.push(l)[0] == lines[0]);
        assert(spec_parse_pairs(lines.push(l)) =~= spec_parse_pairs(lines) + tail);
    }
}

/// Parse one metadata line into its pair, if it holds one.
pub fn parse_line(l: &str) -> (r: Option<(String, Option<String>)>)
    ensures
        r.deep_view() == spec_parse_line(l@),
{
    let n = l.unicode_len();
    if n > 0 && is_blank_char(l.get_char(0)) {
        return None;
    }
    let i = find_char(l, ':');
    if i >= n {
        proof {
            lemma_first_eq(l@, ':');
        }
        return None;
    }
    let key = trim(l.substring_char(0, i));
    let trimmed = trim(l.substring_char(i + 1, n));
    let raw = unquote(trimmed.as_str());
    proof {
        assert(l@.subrange(0, i as int) == l@.take(i as int));
        assert(l@.subrange(i + 1, n as int) == l@.skip(i as int + 1));
    }
    if key.as_str().unicode_len() == 0 {
        None
    } else if raw.as_str().unicode_len() == 0 {
        Some((key, None))
    } else {
        Some((key, Some(raw)))
    }
}

/// Parse `lines[from..to]` into the pairs they hold, in line order.
pub fn parse_pairs_range(lines: &Vec<String>, from: usize, to: usize) -> (r: Vec<
    (String, Option<String>),
>)
    requires
        from <= to <= lines@.len(),
    ensures
        r.deep_view() == spec_parse_pairs(lines.deep_view().subrange(from as int, to as int)),
{
    let mut r: Vec<(String, Option<String>)> = Vec::new();
    let mut k = from;
    proof {
        assert(lines.deep_view().subrange(from as int, from as int) =~= Seq::<Seq<char>>::empty());
        assert(r.deep_view() =~= spec_parse_pairs(
            lines.deep_view().subrange(from as int, from as int),
        ));
    }
    while k < to
        invariant
            from <= k <= to <= lines@.len(),
            r.deep_view() == spec_parse_pairs(lines.deep_view().subrange(from as int, k as int)),
        decreases to - k,
    {
        match parse_line(lines[k].as_str()) {
            Some(p) => {
                r.push(p);
            },
            None => {},
        }
        proof {
            let dv = lines.deep_view();
            assert(dv.subrange(from as int, k + 1) =~= dv.subrange(from as int, k as int).push(
                dv[k as int],
            ));
            lemma_parse_pairs_push(dv.subrange(from as int, k as int), dv[k as int]);
            assert(r.deep_view() =~= spec_parse_pairs(dv.subrange(from as int, k + 1)));
        }
        k += 1;
    }
    r
}

} // verus!
