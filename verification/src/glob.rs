//! Glob-style region matching.
//!
//! A pattern matches a region string in full: `*` matches any run of zero or
//! more characters, every other character matches only itself, and the match
//! is anchored at both ends. A leading `!` on a filter inverts the result of
//! matching the remainder of the filter.

use vstd::prelude::*;
use vstd::string::*;

verus! {

/// Whether `pattern` matches `text` in full: `'*'` matches any run of zero
/// or more characters, and every other pattern character matches exactly
/// itself. Matching covers the whole of `text`, not a substring.
pub open spec fn glob_matches(pattern: Seq<char>, text: Seq<char>) -> bool
    decreases pattern.len() + text.len(),
{
    if pattern.len() == 0 {
        text.len() == 0
    } else if pattern[0] == '*' {
        glob_matches(pattern.skip(1), text) || (text.len() > 0 && glob_matches(
            pattern,
            text.skip(1),
        ))
    } else {
        text.len() > 0 && text[0] == pattern[0] && glob_matches(pattern.skip(1), text.skip(1))
    }
}

/// Whether a region satisfies a filter string: a leading `'!'` inverts the
/// glob match of the remaining characters; otherwise the whole filter is the
/// glob.
pub open spec fn spec_matches_region(region: Seq<char>, filter: Seq<char>) -> bool {
    if filter.len() > 0 && filter[0] == '!' {
        !glob_matches(filter.skip(1), region)
    } else {
        glob_matches(filter, region)
    }
}

/// The characters of a string, collected into a vector.
fn chars_of(s: &str) -> (r: Vec<char>)
    ensures
        r@ == s@,
{
    let n = s.unicode_len();
    let mut r: Vec<char> = Vec::new();
    let mut i: usize = 0;
    while i < n
        invariant
            i <= n,
            n == s@.len(),
            r@ == s@.take(i as int),
        decreases n - i,
    {
        let c = s.get_char(i);
        r.push(c);
        proof {
            assert(r@ =~= s@.take(i + 1 as int));
        }
        i += 1;
    }
    proof {
        assert(s@.take(n as int) =~= s@);
    }
    r
}

/// Decides `glob_matches` on the suffixes of `pattern` and `text` that start
/// at `pi` and `ti`, by direct recursion on the definition.
fn glob_match_from(pattern: &Vec<char>, text: &Vec<char>, pi: usize, ti: usize) -> (r: bool)
    requires
        pi <= pattern.len(),
        ti <= text.len(),
    ensures
        r == glob_matches(pattern@.skip(pi as int), text@.skip(ti as int)),
    decreases pattern.len() - pi + text.len() - ti,
{
    proof {
        assert(pi < pattern.len() ==> pattern@.skip(pi as int)[0] == pattern@[pi as int]);
        assert(ti < text.len() ==> text@.skip(ti as int)[0] == text@[ti as int]);
    }
    if pi == pattern.len() {
        ti == text.len()
    } else if pattern[pi] == '*' {
        proof {
            assert(pattern@.skip(pi as int).skip(1) =~= pattern@.skip(pi + 1 as int));
        }
        if glob_match_from(pattern, text, pi + 1, ti) {
            true
        } else if ti < text.len() {
            proof {
                assert(text@.skip(ti as int).skip(1) =~= text@.skip(ti + 1 as int));
            }
            glob_match_from(pattern, text, pi, ti + 1)
        } else {
            false
        }
    } else {
        if ti < text.len() && text[ti] == pattern[pi] {
            proof {
                assert(pattern@.skip(pi as int).skip(1) =~= pattern@.skip(pi + 1 as int));
                assert(text@.skip(ti as int).skip(1) =~= text@.skip(ti + 1 as int));
            }
            glob_match_from(pattern, text, pi + 1, ti + 1)
        } else {
            false
        }
    }
}

/// Whether the glob `pattern` matches the whole of `value`.
pub fn wildcard_match(value: &str, pattern: &str) -> (r: bool)
    ensures
        r == glob_matches(pattern@, value@),
{
    let p = chars_of(pattern);
    let v = chars_of(value);
    proof {
        assert(p@.skip(0) =~= p@);
        assert(v@.skip(0) =~= v@);
    }
    glob_match_from(&p, &v, 0, 0)
}

/// Whether `region` satisfies `filter`: a leading `'!'` inverts the glob
/// match of the rest of the filter.
pub fn matches_region(region: &str, filter: &str) -> (r: bool)
    ensures
        r == spec_matches_region(region@, filter@),
{
    let n = filter.unicode_len();
    if n > 0 && filter.get_char(0) == '!' {
        let rest = filter.substring_char(1, n);
        proof {
            assert(rest@ =~= filter@.skip(1));
        }
        !wildcard_match(region, rest)
    } else {
        wildcard_match(region, filter)
    }
}

/// The one-character pattern `'*'` matches every string.
pub proof fn lemma_star_matches_all(text: Seq<char>)
    ensures
        glob_matches(seq!['*'], text),
    decreases text.len(),
{
    let star = seq!['*'];
    if text.len() == 0 {
        assert(glob_matches(star.skip(1), text));
    } else {
        lemma_star_matches_all(text.skip(1));
    }
}

} // verus!
