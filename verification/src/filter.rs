//! The filter engine: the LDAP filter tree and its evaluation against a
//! single entry. Attribute names are compared case-insensitively, attribute
//! values byte-exactly.
use vstd::prelude::*;

use crate::entry::spec_get_attr;
use crate::entry::spec_has_attr;
use crate::entry::LdapSearchResultEntry;
use crate::entry::SpecEntry;
use crate::entry::entry_get_attribute;
use crate::entry::entry_has_attribute;
use crate::strutil::spec_contains_sub;
use crate::strutil::spec_ends_with;
use crate::strutil::spec_starts_with;
use crate::strutil::str_contains_sub;
use crate::strutil::str_ends_with;
use crate::strutil::str_eq;
use crate::strutil::str_starts_with;

verus! {

/// The three optional parts of a substring filter: an initial fragment, any
/// number of middle fragments, and a final fragment.
pub struct LdapSubstringFilter {
    pub initial: Option<String>,
    pub any: Vec<String>,
    pub final_: Option<String>,
}

/// An LDAP search filter over a single entry.
pub enum LdapFilter {
    And(Vec<LdapFilter>),
    Or(Vec<LdapFilter>),
    Not(Box<LdapFilter>),
    Equality(String, String),
    Substring(String, LdapSubstringFilter),
    Present(String),
}

/// Some string in `vals` has prefix `p`.
pub open spec fn spec_some_starts_with(vals: Seq<Seq<char>>, p: Seq<char>) -> bool {
    exists|i: int| 0 <= i < vals.len() && spec_starts_with(vals[i], p)
}

/// Some string in `vals` has suffix `p`.
pub open spec fn spec_some_ends_with(vals: Seq<Seq<char>>, p: Seq<char>) -> bool {
    exists|i: int| 0 <= i < vals.len() && spec_ends_with(vals[i], p)
}

/// Some string in `vals` contains `p` as a substring.
pub open spec fn spec_some_contains(vals: Seq<Seq<char>>, p: Seq<char>) -> bool {
    exists|i: int| 0 <= i < vals.len() && spec_contains_sub(vals[i], p)
}

/// A substring filter holds of the values of attribute `at`: the initial
/// fragment (if any) starts some value, the final fragment (if any) ends some
/// value, and every middle fragment occurs inside some value. A filter with
/// no fragments at all matches exactly the entries that have the attribute.
pub open spec fn spec_substring_match(e: SpecEntry, at: Seq<char>, sf: LdapSubstringFilter) -> bool {
    let vals = spec_get_attr(e, at);
    &&& spec_has_attr(e, at)
    &&& (match sf.initial {
        Some(p) => spec_some_starts_with(vals, p@),
        None => true,
    })
    &&& (match sf.final_ {
        Some(p) => spec_some_ends_with(vals, p@),
        None => true,
    })
    &&& (forall|j: int| 0 <= j < sf.any@.len() ==> spec_some_contains(vals, #[trigger] sf.any@[j]@))
}

/// Evaluation of a filter tree against one entry.
pub open spec fn spec_matches_filter(f: LdapFilter, e: SpecEntry) -> bool
    decreases f,
{
    match f {
        LdapFilter::And(fs) => forall|i: int|
            0 <= i < fs@.len() ==> spec_matches_filter(fs@[i], e),
        LdapFilter::Or(fs) => exists|i: int|
            0 <= i < fs@.len() && spec_matches_filter(fs@[i], e),
        LdapFilter::Not(g) => !spec_matches_filter(*g, e),
        LdapFilter::Equality(at, v) => spec_get_attr(e, at@).contains(v@),
        LdapFilter::Substring(at, sf) => spec_substring_match(e, at@, sf),
        LdapFilter::Present(at) => spec_has_attr(e, at@),
    }
}

/// Some value in `vals` has prefix `p`.
fn some_value_starts_with(vals: &Vec<String>, p: &str) -> (r: bool)
    ensures
        r == spec_some_starts_with(vals.deep_view(), p@),
{
    let n = vals.len();
    let mut i: usize = 0;
    while i < n
        invariant
            i <= n,
            n == vals.len(),
            forall|j: int| 0 <= j < i ==> !spec_starts_with(vals.deep_view()[j], p@),
        decreases n - i,
    {
        if str_starts_with(vals[i].as_str(), p) {
            proof {
                assert(spec_starts_with(vals.deep_view()[i as int], p@));
            }
            return true;
        }
        i += 1;
    }
    false
}

/// Some value in `vals` has suffix `p`.
fn some_value_ends_with(vals: &Vec<String>, p: &str) -> (r: bool)
    ensures
        r == spec_some_ends_with(vals.deep_view(), p@),
{
    let n = vals.len();
    let mut i: usize = 0;
    while i < n
        invariant
            i <= n,
            n == vals.len(),
            forall|j: int| 0 <= j < i ==> !spec_ends_with(vals.deep_view()[j], p@),
        decreases n - i,
    {
        if str_ends_with(vals[i].as_str(), p) {
            proof {
                assert(spec_ends_with(vals.deep_view()[i as int], p@));
            }
            return true;
        }
        i += 1;
    }
    false
}

/// Some value in `vals` contains `p` as a substring.
fn some_value_contains(vals: &Vec<String>, p: &str) -> (r: bool)
    ensures
        r == spec_some_contains(vals.deep_view(), p@),
{
    let n = vals.len();
    let mut i: usize = 0;
    while i < n
        invariant
            i <= n,
            n == vals.len(),
            forall|j: int| 0 <= j < i ==> !spec_contains_sub(vals.deep_view()[j], p@),
        decreases n - i,
    {
        if str_contains_sub(vals[i].as_str(), p) {
            proof {
                assert(spec_contains_sub(vals.deep_view()[i as int], p@));
            }
            return true;
        }
        i += 1;
    }
    false
}

/// Some value in `vals` equals `v` byte-exactly.
fn some_value_equals(vals: &Vec<String>, v: &str) -> (r: bool)
    ensures
        r == vals.deep_view().contains(v@),
{
    let n = vals.len();
    let mut i: usize = 0;
    while i < n
        invariant
            i <= n,
            n == vals.len(),
            forall|j: int| 0 <= j < i ==> vals.deep_view()[j] != v@,
        decreases n - i,
    {
        if str_eq(vals[i].as_str(), v) {
            proof {
                assert(vals.deep_view()[i as int] == v@);
            }
            return true;
        }
        i += 1;
    }
    false
}

fn eval_substring(e: &LdapSearchResultEntry, at: &str, sf: &LdapSubstringFilter) -> (r: bool)
    ensures
        r == spec_substring_match(e@, at@, *sf),
{
    if !entry_has_attribute(e, at) {
        return false;
    }
    let vals = entry_get_attribute(e, at);
    match &sf.initial {
        Some(p) => {
            if !some_value_starts_with(&vals, p.as_str()) {
                return false;
            }
        },
        None => {},
    }
    match &sf.final_ {
        Some(p) => {
            if !some_value_ends_with(&vals, p.as_str()) {
                return false;
            }
        },
        None => {},
    }
    let n = sf.any.len();
    let mut j: usize = 0;
    while j < n
        invariant
            j <= n,
            n == sf.any.len(),
            vals.deep_view() == spec_get_attr(e@, at@),
            forall|jj: int|
                0 <= jj < j ==> spec_some_contains(spec_get_attr(e@, at@), #[trigger] sf.any@[jj]@),
        decreases n - j,
    {
        if !some_value_contains(&vals, sf.any[j].as_str()) {
            return false;
        }
        j += 1;
    }
    true
}

/// Evaluation of a filter against an entry, as `spec_matches_filter` says.
pub fn eval_filter(e: &LdapSearchResultEntry, f: &LdapFilter) -> (r: bool)
    ensures
        r == spec_matches_filter(*f, e@),
    decreases *f,
{
    match f {
        LdapFilter::And(fs) => {
            let n = fs.len();
            let mut i: usize = 0;
            while i < n
                invariant
                    i <= n,
                    n == fs.len(),
                    forall|j: int| 0 <= j < i ==> spec_matches_filter(fs@[j], e@),
                decreases n - i,
            {
                if !eval_filter(e, &fs[i]) {
                    return false;
                }
                i += 1;
            }
            true
        },
        LdapFilter::Or(fs) => {
            let n = fs.len();
            let mut i: usize = 0;
            while i < n
                invariant
                    i <= n,
                    n == fs.len(),
                    forall|j: int| 0 <= j < i ==> !spec_matches_filter(fs@[j], e@),
                decreases n - i,
            {
                if eval_filter(e, &fs[i]) {
                    return true;
                }
                i += 1;
            }
            false
        },
        LdapFilter::Not(g) => !eval_filter(e, g),
        LdapFilter::Equality(at, v) => {
            let vals = entry_get_attribute(e, at.as_str());
            some_value_equals(&vals, v.as_str())
        },
        LdapFilter::Substring(at, sf) => eval_substring(e, at.as_str(), sf),
        LdapFilter::Present(at) => entry_has_attribute(e, at.as_str()),
    }
}

} // verus!
