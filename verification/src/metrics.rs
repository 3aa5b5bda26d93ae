use vstd::prelude::*;
use crate::strutil::{first_idx_of, str_eq, str_find_char};

verus! {

/// The label a request path is accounted under: one `/` followed by
/// the text between the path's first separator and its second (or its
/// end). A path without any separator is not accounted at all.
pub open spec fn route_key(path: Seq<char>) -> Option<Seq<char>> {
    if !path.contains('/') {
        None
    } else {
        let rest = path.skip(first_idx_of(path, '/') + 1);
        if rest.contains('/') {
            Some(seq!['/'] + rest.take(first_idx_of(rest, '/')))
        } else {
            Some(seq!['/'] + rest)
        }
    }
}

/// Compute the accounting label of a request path.
pub fn metrics_route_key(path: &str) -> (r: Option<String>)
    ensures
        match r {
            Some(k) => route_key(path@) == Some(k@),
            None => route_key(path@) is None,
        },
{
    let len = path.unicode_len();
    let start = match str_find_char(path, '/') {
        Some(i) => i,
        None => {
            return None;
        },
    };
    let rest = path.substring_char(start + 1, len);
    proof {
        assert(rest@ =~= path@.skip(start as int + 1));
    }
    let rest_len = rest.unicode_len();
    let part = match str_find_char(rest, '/') {
        Some(j) => rest.substring_char(0, j),
        None => rest,
    };
    proof {
        if rest@.contains('/') {
            assert(part@ =~= rest@.take(first_idx_of(rest@, '/')));
        }
    }
    let mut key = "/".to_owned();
    key.append(part);
    proof {
        reveal_strlit("/");
        assert(key@ =~= seq!['/'] + part@);
    }
    Some(key)
}

/// Is the path's accounting label one of the allowed prefixes?
/// Only those requests are counted; anything else is turned away.
pub fn is_tracked_path(path: &str, allowed: &Vec<String>) -> (r: Option<String>)
    ensures
        match r {
            Some(k) => route_key(path@) == Some(k@) && allowed.deep_view().contains(k@),
            None => route_key(path@) is None || (route_key(path@) matches Some(k)
                && !allowed.deep_view().contains(k)),
        },
{
    let key = match metrics_route_key(path) {
        Some(k) => k,
        None => {
            return None;
        },
    };
    let n = allowed.len();
    let mut i: usize = 0;
    while i < n
        invariant
            n == allowed@.len(),
            i <= n,
            route_key(path@) == Some(key@),
            forall|j: int| 0 <= j < i ==> allowed.deep_view()[j] != key@,
        decreases n - i,
    {
        if str_eq(allowed[i].as_str(), key.as_str()) {
            proof {
                assert(allowed.deep_view()[i as int] == key@);
            }
            return Some(key);
        }
        i = i + 1;
    }
    proof {
        if allowed.deep_view().contains(key@) {
            let j = choose|j: int|
                0 <= j < allowed.deep_view().len() && allowed.deep_view()[j] == key@;
            assert(allowed.deep_view()[j] != key@);
        }
    }
    None
}

} // verus!
