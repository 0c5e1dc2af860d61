//! Hostname intersection between listeners and routes.
use crate::text::{chars_of, str_eq};
use vstd::prelude::*;

verus! {

/// Whether the host name pattern covers `candidate`: they are equal, or the
/// pattern is `*.suffix` and the candidate is a proper subdomain of the suffix.
pub open spec fn covers(pattern: Seq<char>, candidate: Seq<char>) -> bool {
    ||| pattern == candidate
    ||| {
        // The pattern without its `*` is the dotted suffix of the candidate,
        // and something stands before that dot.
        &&& pattern.len() >= 2
        &&& pattern[0] == '*'
        &&& pattern[1] == '.'
        &&& candidate.len() >= pattern.len()
        &&& candidate.subrange(candidate.len() - pattern.len() + 1, candidate.len() as int)
            == pattern.subrange(1, pattern.len() as int)
    }
}

/// Whether two host name patterns have a host in common.
pub open spec fn patterns_meet(a: Seq<char>, b: Seq<char>) -> bool {
    covers(a, b) || covers(b, a)
}

/// Whether a listener's host name and a route's host names have one in
/// common. No listener host name, or no route host names, restricts nothing.
pub open spec fn hostnames_meet(listener: Option<Seq<char>>, routes: Seq<Seq<char>>) -> bool {
    match listener {
        None => true,
        Some(h) => routes.len() == 0 || exists|i: int|
            0 <= i < routes.len() && patterns_meet(h, #[trigger] routes[i]),
    }
}

/// Whether `pattern` covers `candidate`; `*.example.com` covers
/// `foo.example.com` but not `example.com`.
pub fn hostname_matches(pattern: &str, candidate: &str) -> (r: bool)
    ensures
        r == covers(pattern@, candidate@),
{
    if str_eq(pattern, candidate) {
        return true;
    }
    let p = chars_of(pattern);
    let c = chars_of(candidate);
    if p.len() < 2 || p[0] != '*' || p[1] != '.' || c.len() < p.len() {
        return false;
    }
    let off: usize = c.len() - p.len();
    let mut i: usize = 1;
    while i < p.len()
        invariant
            1 <= i <= p.len(),
            p@ == pattern@,
            c@ == candidate@,
            p.len() >= 2,
            off == c.len() - p.len(),
            forall|j: int| 1 <= j < i ==> p@[j] == c@[off + j],
        decreases p.len() - i,
    {
        if p[i] != c[off + i] {
            proof {
                let a = candidate@.subrange(candidate@.len() - pattern@.len() + 1, candidate@.len() as int);
                let b = pattern@.subrange(1, pattern@.len() as int);
                assert(a[i - 1] == c@[off + i]);
                assert(b[i - 1] == p@[i as int]);
            }
            return false;
        }
        i += 1;
    }
    proof {
        assert(candidate@.subrange(candidate@.len() - pattern@.len() + 1, candidate@.len() as int)
            =~= pattern@.subrange(1, pattern@.len() as int));
    }
    true
}

/// Whether a listener host name and a route's host names overlap. A listener
/// without a host name admits every route; a route without host names matches
/// every listener.
pub fn hostnames_intersect(listener_hostname: &Option<String>, route_hostnames: &Vec<String>) -> (r:
    bool)
    ensures
        r == hostnames_meet(listener_hostname.deep_view(), route_hostnames.deep_view()),
{
    match listener_hostname {
        None => true,
        Some(h) => {
            if route_hostnames.len() == 0 {
                return true;
            }
            let ghost v = route_hostnames.deep_view();
            let mut i: usize = 0;
            while i < route_hostnames.len()
                invariant
                    i <= route_hostnames.len(),
                    v == route_hostnames.deep_view(),
                    listener_hostname.deep_view() == Some(h@),
                    forall|j: int| 0 <= j < i ==> !patterns_meet(h@, #[trigger] v[j]),
                decreases route_hostnames.len() - i,
            {
                assert(v[i as int] == route_hostnames@[i as int]@);
                if hostname_matches(h.as_str(), route_hostnames[i].as_str()) || hostname_matches(
                    route_hostnames[i].as_str(),
                    h.as_str(),
                ) {
                    return true;
                }
                i += 1;
            }
            false
        },
    }
}

/// A wildcard does not cover its own suffix.
pub proof fn law_wildcard_excludes_apex(suffix: Seq<char>)
    ensures
        !covers(seq!['*', '.'] + suffix, suffix),
{
    assert((seq!['*', '.'] + suffix).len() == suffix.len() + 2);
}

/// A wildcard covers every name that puts a label before its suffix.
pub proof fn law_wildcard_covers_subdomains(label: Seq<char>, suffix: Seq<char>)
    requires
        label.len() > 0,
    ensures
        covers(seq!['*', '.'] + suffix, label + seq!['.'] + suffix),
{
    let p = seq!['*', '.'] + suffix;
    let c = label + seq!['.'] + suffix;
    assert(c.subrange(c.len() - p.len() + 1, c.len() as int) =~= p.subrange(1, p.len() as int));
}

/// Overlap does not depend on the side that a pattern stands on.
pub proof fn law_patterns_meet_symmetric(a: Seq<char>, b: Seq<char>)
    ensures
        patterns_meet(a, b) == patterns_meet(b, a),
{
}

/// A pattern covers itself. One that is no wildcard covers nothing else; a
/// wildcard covers nothing else but names that put a label before its suffix.
pub proof fn law_patterns_cover_no_more(pattern: Seq<char>, candidate: Seq<char>)
    requires
        covers(pattern, candidate),
    ensures
        covers(pattern, pattern),
        candidate == pattern || exists|label: Seq<char>, suffix: Seq<char>|
            label.len() > 0 && pattern == seq!['*', '.'] + suffix && candidate == #[trigger] (label
                + seq!['.'] + suffix),
{
    if candidate != pattern {
        let suffix = pattern.skip(2);
        let label = candidate.take(candidate.len() - pattern.len() + 1);
        assert(pattern =~= seq!['*', '.'] + suffix);
        let tail = candidate.subrange(
            candidate.len() - pattern.len() + 1,
            candidate.len() as int,
        );
        assert(tail =~= seq!['.'] + suffix) by {
            assert(tail =~= pattern.subrange(1, pattern.len() as int));
        }
        assert(candidate =~= label + tail);
        assert(candidate =~= label + seq!['.'] + suffix);
    }
}

/// Each host name of a route counts for itself: the route and the listener
/// have a host in common where one of its names does. Where either side names
/// none, nothing is ruled out.
pub proof fn law_one_shared_hostname_is_enough(
    listener: Seq<char>,
    a: Seq<Seq<char>>,
    name: Seq<char>,
    b: Seq<Seq<char>>,
)
    ensures
        hostnames_meet(None, a),
        hostnames_meet(Some(listener), Seq::empty()),
        hostnames_meet(Some(listener), seq![name]) <==> covers(listener, name) || covers(
            name,
            listener,
        ),
        hostnames_meet(Some(listener), a + seq![name] + b) <==> hostnames_meet(
            Some(listener),
            seq![name],
        ) || (a + b).len() > 0 && hostnames_meet(Some(listener), a + b),
{
    let one = seq![name];
    let all = a + seq![name] + b;
    let rest = a + b;
    assert(one[0] == name);
    assert(all[a.len() as int] == name);
    assert forall|i: int| 0 <= i < rest.len() implies #[trigger] rest[i] == all[if i < a.len() {
        i
    } else {
        i + 1
    }] by {}
    if rest.len() > 0 && hostnames_meet(Some(listener), rest) {
        let i = choose|i: int| 0 <= i < rest.len() && patterns_meet(listener, #[trigger] rest[i]);
        let j = if i < a.len() {
            i
        } else {
            i + 1
        };
        assert(patterns_meet(listener, all[j]));
    }
    if hostnames_meet(Some(listener), all) {
        let j = choose|j: int| 0 <= j < all.len() && patterns_meet(listener, #[trigger] all[j]);
        if j != a.len() {
            let i = if j < a.len() {
                j
            } else {
                j - 1
            };
            assert(rest[i] == all[j]);
            assert(patterns_meet(listener, rest[i]));
        } else {
            assert(patterns_meet(listener, one[0]));
        }
    }
    if patterns_meet(listener, name) {
        assert(patterns_meet(listener, all[a.len() as int]));
    }
}

} // verus!
