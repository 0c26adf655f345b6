//! Locating the dedicated configuration file.
//!
//! The store does not live inside the repository's own configuration.
//! Instead, whichever git configuration path can be discovered (the
//! XDG-style one preferred, else the user's global one) only tells the
//! store in which directory to live: its file name is replaced by a fixed
//! dedicated name, so the store sits alongside the normal configuration.

use crate::errors::StoreError;
use vstd::prelude::*;

verus! {

/// The position just after the last `/` in `s`, or `0` if `s` has none.
pub open spec fn after_last_slash(s: Seq<char>) -> int
    decreases s.len(),
{
    if s.len() == 0 {
        0
    } else if s.last() == '/' {
        s.len() as int
    } else {
        after_last_slash(s.drop_last())
    }
}

/// `s` with its file name (everything after the last `/`) replaced by
/// `name`.
pub open spec fn with_file_name(s: Seq<char>, name: Seq<char>) -> Seq<char> {
    s.take(after_last_slash(s)) + name
}

/// The fixed file name of the dedicated configuration file.
pub open spec fn dedicated_file_name() -> Seq<char> {
    ".gitconfig_wt"@
}

/// A position with a slash just before it and none at or after it is
/// `after_last_slash`.
proof fn lemma_after_last_slash_unique(s: Seq<char>, i: int)
    requires
        0 <= i <= s.len(),
        forall|j: int| i <= j < s.len() ==> s[j] != '/',
        i > 0 ==> s[i - 1] == '/',
    ensures
        after_last_slash(s) == i,
    decreases s.len(),
{
    if s.len() == 0 {
    } else if s.last() == '/' {
        assert(i == s.len());
    } else {
        assert(i < s.len());
        assert forall|j: int| i <= j < s.drop_last().len() implies s.drop_last()[j] != '/' by {
            assert(s.drop_last()[j] == s[j]);
        }
        assert(i > 0 ==> s.drop_last()[i - 1] == s[i - 1]);
        lemma_after_last_slash_unique(s.drop_last(), i);
    }
}

/// Replaces the file name of the discovered configuration path with the
/// fixed dedicated file name.
pub fn dedicated_config_path(discovered: &str) -> (r: String)
    ensures
        r@ == with_file_name(discovered@, dedicated_file_name()),
{
    let n = discovered.unicode_len();
    let mut cut: usize = 0;
    let mut i: usize = 0;
    while i < n
        invariant
            cut <= i <= n,
            n == discovered@.len(),
            forall|j: int| cut <= j < i ==> discovered@[j] != '/',
            cut > 0 ==> discovered@[cut - 1] == '/',
        decreases n - i,
    {
        if discovered.get_char(i) == '/' {
            cut = i + 1;
        }
        i = i + 1;
    }
    proof {
        lemma_after_last_slash_unique(discovered@, cut as int);
    }
    let mut r = discovered.substring_char(0, cut).to_owned();
    r.append(".gitconfig_wt");
    proof {
        assert(r@ =~= with_file_name(discovered@, dedicated_file_name()));
    }
    r
}

/// Picks the configuration path the store should live beside: the
/// XDG-style path if one was found, else the global one, else a location
/// error.
pub fn resolve_config_path(xdg: Option<String>, global: Option<String>) -> (r: Result<
    String,
    StoreError,
>)
    ensures
        xdg is Some ==> (r matches Ok(q) && q == xdg->Some_0),
        xdg is None && global is Some ==> (r matches Ok(q) && q == global->Some_0),
        xdg is None && global is None ==> (r matches Err(e) && e is Location),
{
    match xdg {
        Some(p) => Ok(p),
        None => match global {
            Some(p) => Ok(p),
            None => Err(StoreError::Location),
        },
    }
}

} // verus!
