//! Display templates: text with `{{` and `}}` escapes and substitution sites
//! `{}` or `{:spec}`.

use vstd::prelude::*;
use vstd::string::*;

verus! {

/// The first index at or after `j` that holds a brace, or the length.
pub open spec fn next_brace(t: Seq<char>, j: int) -> int
    decreases t.len() - j,
{
    if j < 0 || j >= t.len() {
        t.len() as int
    } else if t[j] == '{' || t[j] == '}' {
        j
    } else {
        next_brace(t, j + 1)
    }
}

/// The number of substitution sites in `t` from index `i` on, or `None` when
/// that part is not a well-formed template (a lone `}`, an unclosed `{`, a
/// site that is not positional).
pub open spec fn sites_from(t: Seq<char>, i: int) -> Option<nat>
    decreases t.len() - i,
{
    if i < 0 || i >= t.len() {
        Some(0)
    } else if t[i] == '{' && i + 1 < t.len() && t[i + 1] == '{' {
        sites_from(t, i + 2)
    } else if t[i] == '}' {
        if i + 1 < t.len() && t[i + 1] == '}' {
            sites_from(t, i + 2)
        } else {
            None
        }
    } else if t[i] == '{' {
        let j = next_brace(t, i + 1);
        if i + 1 <= j < t.len() && t[j] == '}' && (j == i + 1 || t[i + 1] == ':') {
            match sites_from(t, j + 1) {
                Some(n) => Some(n + 1),
                None => None,
            }
        } else {
            None
        }
    } else {
        sites_from(t, i + 1)
    }
}

/// The number of substitution sites of a template, if it is well formed.
pub open spec fn site_count(t: Seq<char>) -> Option<nat> {
    sites_from(t, 0)
}

pub open spec fn plus(n: nat, r: Option<nat>) -> Option<nat> {
    match r {
        Some(m) => Some(n + m),
        None => None,
    }
}

/// The first brace at or after `j`, or the length `len` of `t`.
pub(crate) fn find_brace(t: &str, len: usize, j: usize) -> (r: usize)
    requires
        len == t@.len(),
        j <= len,
    ensures
        r == next_brace(t@, j as int),
        j <= r <= len,
{
    let mut k: usize = j;
    while k < len
        invariant
            len == t@.len(),
            j <= k <= len,
            next_brace(t@, j as int) == next_brace(t@, k as int),
        decreases len - k,
    {
        let c = t.get_char(k);
        if c == '{' || c == '}' {
            return k;
        }
        k = k + 1;
    }
    k
}

/// Counts the substitution sites of a template; `None` when it is malformed.
pub fn count_sites(t: &str) -> (r: Option<usize>)
    ensures
        match r {
            Some(n) => site_count(t@) == Some(n as nat),
            None => site_count(t@) is None,
        },
{
    let len = t.unicode_len();
    let mut i: usize = 0;
    let mut count: usize = 0;
    while i < len
        invariant
            len == t@.len(),
            i <= len,
            count <= i,
            site_count(t@) == plus(count as nat, sites_from(t@, i as int)),
        decreases len - i,
    {
        let c = t.get_char(i);
        if c == '{' && i + 1 < len && t.get_char(i + 1) == '{' {
            i = i + 2;
        } else if c == '}' {
            if i + 1 < len && t.get_char(i + 1) == '}' {
                i = i + 2;
            } else {
                return None;
            }
        } else if c == '{' {
            let j = find_brace(t, len, i + 1);
            if j < len && t.get_char(j) == '}' && (j == i + 1 || t.get_char(i + 1) == ':') {
                count = count + 1;
                i = j + 1;
            } else {
                return None;
            }
        } else {
            i = i + 1;
        }
    }
    Some(count)
}

} // verus!
