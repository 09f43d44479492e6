//! The dataset records and the region filter over them.

use vstd::prelude::*;
use vstd::string::*;
use crate::glob::glob_matches;
use crate::glob::matches_region;
use crate::glob::spec_matches_region;

verus! {

/// One record of the upstream dataset: a CIDR prefix string and the region
/// identifier it belongs to. The upstream document carries further fields
/// (a service name, a network border group), but nothing here reads them.
pub struct PrefixEntry {
    pub ip_prefix: String,
    pub region: String,
}

/// Whether an entry is kept by an optional filter string: with no filter
/// every entry is kept; with one, exactly those whose region satisfies it.
pub open spec fn entry_included(e: PrefixEntry, pattern: Option<Seq<char>>) -> bool {
    match pattern {
        Some(p) => spec_matches_region(e.region@, p),
        None => true,
    }
}

/// The prefixes of the entries kept by the filter, in the entries' own
/// order, duplicates preserved.
pub open spec fn filtered_prefixes(entries: Seq<PrefixEntry>, pattern: Option<Seq<char>>) -> Seq<
    Seq<char>,
>
    decreases entries.len(),
{
    if entries.len() == 0 {
        Seq::empty()
    } else {
        let init = filtered_prefixes(entries.drop_last(), pattern);
        if entry_included(entries.last(), pattern) {
            init.push(entries.last().ip_prefix@)
        } else {
            init
        }
    }
}

/// The character sequences of an optional filter string.
pub open spec fn pattern_view(region: Option<String>) -> Option<Seq<char>> {
    match region {
        Some(s) => Some(s@),
        None => None,
    }
}

/// The character sequences of a vector of strings.
pub open spec fn string_views(v: Seq<String>) -> Seq<Seq<char>> {
    v.map_values(|s: String| s@)
}

/// Selects the prefixes of the entries whose region satisfies the optional
/// filter, keeping the entries' relative order. With no filter every prefix
/// is returned.
pub fn filter_prefixes(entries: &Vec<PrefixEntry>, region: &Option<String>) -> (r: Vec<String>)
    ensures
        string_views(r@) == filtered_prefixes(entries@, pattern_view(*region)),
{
    let ghost pat = pattern_view(*region);
    let mut out: Vec<String> = Vec::new();
    let mut i: usize = 0;
    proof {
        assert(string_views(out@) =~= filtered_prefixes(entries@.take(0), pat));
    }
    while i < entries.len()
        invariant
            i <= entries.len(),
            pat == pattern_view(*region),
            string_views(out@) == filtered_prefixes(entries@.take(i as int), pat),
        decreases entries.len() - i,
    {
        let e = &entries[i];
        let keep = match region {
            Some(f) => matches_region(e.region.as_str(), f.as_str()),
            None => true,
        };
        proof {
            assert(entries@.take(i + 1 as int).drop_last() =~= entries@.take(i as int));
            assert(entries@.take(i + 1 as int).last() == entries@[i as int]);
        }
        if keep {
            out.push(e.ip_prefix.clone());
            proof {
                assert(string_views(out@) =~= filtered_prefixes(entries@.take(i as int), pat).push(
                    entries@[i as int].ip_prefix@,
                ));
            }
        }
        i += 1;
    }
    proof {
        assert(entries@.take(entries@.len() as int) =~= entries@);
    }
    out
}

/// The upstream fetch or the decoding of its body failed. The two causes
/// are deliberately not distinguished: either way the request is aborted
/// and produces no output.
#[derive(Debug)]
pub struct FetchError;

/// What one request yields once the upstream fetch has been attempted: a
/// failed fetch or decode aborts with no output at all, and a successful
/// one yields exactly the filtered prefixes.
pub fn filter_fetched(fetched: Result<Vec<PrefixEntry>, FetchError>, region: &Option<String>) -> (r:
    Result<Vec<String>, FetchError>)
    ensures
        r is Err <==> fetched is Err,
        fetched matches Ok(entries) ==> r matches Ok(out) && string_views(out@)
            == filtered_prefixes(entries@, pattern_view(*region)),
{
    match fetched {
        Ok(entries) => Ok(filter_prefixes(&entries, region)),
        Err(e) => Err(e),
    }
}

/// With no filter supplied, every entry's prefix is returned, in the
/// original order: nothing is dropped, reordered or deduplicated.
pub proof fn lemma_absent_pattern_keeps_all(entries: Seq<PrefixEntry>)
    ensures
        filtered_prefixes(entries, None) == entries.map_values(|e: PrefixEntry| e.ip_prefix@),
    decreases entries.len(),
{
    let all = entries.map_values(|e: PrefixEntry| e.ip_prefix@);
    if entries.len() == 0 {
        assert(filtered_prefixes(entries, None) =~= all);
    } else {
        lemma_absent_pattern_keeps_all(entries.drop_last());
        assert(entries.drop_last().map_values(|e: PrefixEntry| e.ip_prefix@) =~= all.drop_last());
        assert(filtered_prefixes(entries, None) =~= all);
    }
}

/// A filter without a leading `'!'` keeps exactly the entries whose region
/// the glob matches in full.
pub proof fn lemma_positive_pattern_inclusion(e: PrefixEntry, pattern: Seq<char>)
    requires
        pattern.len() == 0 || pattern[0] != '!',
    ensures
        entry_included(e, Some(pattern)) == glob_matches(pattern, e.region@),
{
}

/// A filter with a leading `'!'` keeps exactly the entries whose region the
/// glob derived from stripping the `'!'` does not match.
pub proof fn lemma_negated_pattern_inclusion(e: PrefixEntry, pattern: Seq<char>)
    requires
        pattern.len() > 0,
        pattern[0] == '!',
    ensures
        entry_included(e, Some(pattern)) == !glob_matches(pattern.skip(1), e.region@),
{
}

/// Filtering is a pure function of the entries and the filter: any two
/// results obtained from the same inputs are identical.
pub proof fn lemma_filter_deterministic(
    entries: Seq<PrefixEntry>,
    pattern: Option<Seq<char>>,
    first: Seq<Seq<char>>,
    second: Seq<Seq<char>>,
)
    requires
        first == filtered_prefixes(entries, pattern),
        second == filtered_prefixes(entries, pattern),
    ensures
        first == second,
{
}

/// The lines joined by a single `'\n'` between neighbours: no separator
/// around the ends, and no lines at all give the empty string.
pub open spec fn joined_lines(lines: Seq<Seq<char>>) -> Seq<char>
    decreases lines.len(),
{
    if lines.len() == 0 {
        Seq::empty()
    } else if lines.len() == 1 {
        lines[0]
    } else {
        joined_lines(lines.drop_last()) + seq!['\n'] + lines.last()
    }
}

/// Joins the strings with single newline separators, as the plain-text
/// response body wants them.
pub fn join_lines(lines: &Vec<String>) -> (r: String)
    ensures
        r@ == joined_lines(string_views(lines@)),
{
    let ghost views = string_views(lines@);
    let mut r = String::new();
    let mut i: usize = 0;
    while i < lines.len()
        invariant
            i <= lines.len(),
            views == string_views(lines@),
            r@ == joined_lines(views.take(i as int)),
        decreases lines.len() - i,
    {
        proof {
            reveal_strlit("\n");
            assert("\n"@ =~= seq!['\n']);
            assert(views.take(i + 1 as int).drop_last() =~= views.take(i as int));
            assert(views.take(i + 1 as int).last() == views[i as int]);
        }
        if i > 0 {
            r.append("\n");
        }
        let line = &lines[i];
        r.append(line.as_str());
        i += 1;
    }
    proof {
        assert(views.take(views.len() as int) =~= views);
    }
    r
}

} // verus!
