use vstd::prelude::*;
use vstd::string::{StrSliceExecFns, StringExecFns};

verus! {

/// Whether `s` begins with `p`.
pub open spec fn has_prefix(s: Seq<char>, p: Seq<char>) -> bool {
    p.len() <= s.len() && s.subrange(0, p.len() as int) == p
}

/// The prefix under which the rate-limited API is served.
pub open spec fn api_prefix() -> Seq<char> {
    seq!['/', 'a', 'p', 'i', '/']
}

/// `s` with every leading repetition of the API prefix removed.
pub open spec fn strip_api(s: Seq<char>) -> Seq<char>
    decreases s.len(),
{
    if s.len() >= 5 && has_prefix(s, api_prefix()) {
        strip_api(s.subrange(5, s.len() as int))
    } else {
        s
    }
}

/// `s` up to, not including, its first `/`.
pub open spec fn first_segment(s: Seq<char>) -> Seq<char>
    decreases s.len(),
{
    if s.len() == 0 || s[0] == '/' {
        Seq::empty()
    } else {
        seq![s[0]] + first_segment(s.drop_first())
    }
}

/// Whether the characters of `s` from `at` on begin with `p`.
fn prefix_at(s: &str, at: usize, p: &str) -> (r: bool)
    requires
        at <= s@.len(),
    ensures
        r == has_prefix(s@.subrange(at as int, s@.len() as int), p@),
{
    let n = s.unicode_len();
    let m = p.unicode_len();
    if m > n - at {
        return false;
    }
    let mut i: usize = 0;
    while i < m
        invariant
            n == s@.len(),
            m == p@.len(),
            at + m <= n,
            i <= m,
            forall|k: int| 0 <= k < i ==> s@[at + k] == p@[k],
        decreases m - i,
    {
        if s.get_char(at + i) != p.get_char(i) {
            proof {
                assert(s@.subrange(at as int, s@.len() as int).subrange(0, m as int)[i as int]
                    != p@[i as int]);
            }
            return false;
        }
        i = i + 1;
    }
    proof {
        assert(s@.subrange(at as int, s@.len() as int).subrange(0, m as int) =~= p@);
    }
    true
}

/// The route label of a request path: the first segment after any leading
/// `/api/` prefixes are removed.
pub fn route_label(path: &str) -> (r: String)
    ensures
        r@ == first_segment(strip_api(path@)),
{
    let n = path.unicode_len();
    let mut i: usize = 0;
    proof {
        assert(path@.subrange(0, n as int) =~= path@);
    }
    while n - i >= 5 && prefix_at(path, i, "/api/")
        invariant
            n == path@.len(),
            i <= n,
            strip_api(path@.subrange(i as int, n as int)) == strip_api(path@),
        decreases n - i,
    {
        proof {
            reveal_strlit("/api/");
            let rest = path@.subrange(i as int, n as int);
            assert("/api/"@ =~= api_prefix());
            assert(rest.subrange(5, rest.len() as int) =~= path@.subrange(i + 5, n as int));
        }
        i = i + 5;
    }
    proof {
        reveal_strlit("/api/");
        assert("/api/"@ =~= api_prefix());
    }
    let start = i;
    let mut j: usize = i;
    while j < n && path.get_char(j) != '/'
        invariant
            n == path@.len(),
            start <= j <= n,
            first_segment(path@.subrange(start as int, n as int)) == path@.subrange(
                start as int,
                j as int,
            ) + first_segment(path@.subrange(j as int, n as int)),
        decreases n - j,
    {
        proof {
            let rest = path@.subrange(j as int, n as int);
            assert(rest.drop_first() =~= path@.subrange(j + 1, n as int));
            assert(path@.subrange(start as int, j + 1) =~= path@.subrange(start as int, j as int)
                + seq![rest[0]]);
        }
        j = j + 1;
    }
    proof {
        assert(first_segment(path@.subrange(j as int, n as int)) =~= Seq::<char>::empty());
        assert(path@.subrange(start as int, j as int) + Seq::<char>::empty() =~= path@.subrange(
            start as int,
            j as int,
        ));
    }
    path.substring_char(start, j).to_owned()
}

/// Whether a path is one of the operational endpoints, which bypass rate
/// limiting: it begins with `/metrics` or `/health`.
pub fn is_internal_path(path: &str) -> (r: bool)
    ensures
        r == (has_prefix(path@, "/metrics"@) || has_prefix(path@, "/health"@)),
{
    proof {
        assert(path@.subrange(0, path@.len() as int) =~= path@);
    }
    prefix_at(path, 0, "/metrics") || prefix_at(path, 0, "/health")
}

/// `s` without its trailing `/` characters.
pub open spec fn trim_end_slashes(s: Seq<char>) -> Seq<char>
    decreases s.len(),
{
    if s.len() > 0 && s.last() == '/' {
        trim_end_slashes(s.drop_last())
    } else {
        s
    }
}

/// `s` without its leading `/` characters.
pub open spec fn trim_start_slashes(s: Seq<char>) -> Seq<char>
    decreases s.len(),
{
    if s.len() > 0 && s[0] == '/' {
        trim_start_slashes(s.drop_first())
    } else {
        s
    }
}

/// The upstream address of a request: the base address and the request's
/// path and query, joined by exactly one `/`.
pub fn upstream_url(base: &str, path_and_query: &str) -> (r: String)
    ensures
        r@ == trim_end_slashes(base@) + seq!['/'] + trim_start_slashes(path_and_query@),
{
    let mut end = base.unicode_len();
    proof {
        assert(base@.subrange(0, end as int) =~= base@);
    }
    while end > 0 && base.get_char(end - 1) == '/'
        invariant
            end <= base@.len(),
            trim_end_slashes(base@.subrange(0, end as int)) == trim_end_slashes(base@),
        decreases end,
    {
        proof {
            assert(base@.subrange(0, end as int).drop_last() =~= base@.subrange(0, end - 1));
        }
        end = end - 1;
    }
    let n = path_and_query.unicode_len();
    let mut start: usize = 0;
    proof {
        assert(path_and_query@.subrange(0, n as int) =~= path_and_query@);
    }
    while start < n && path_and_query.get_char(start) == '/'
        invariant
            start <= n,
            n == path_and_query@.len(),
            trim_start_slashes(path_and_query@.subrange(start as int, n as int)) == trim_start_slashes(
                path_and_query@,
            ),
        decreases n - start,
    {
        proof {
            assert(path_and_query@.subrange(start as int, n as int).drop_first()
                =~= path_and_query@.subrange(start + 1, n as int));
        }
        start = start + 1;
    }
    let mut out = base.substring_char(0, end).to_owned();
    out.append("/");
    out.append(path_and_query.substring_char(start, n));
    proof {
        reveal_strlit("/");
    }
    out
}

} // verus!
