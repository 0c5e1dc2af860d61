//! What a data plane watches, and which Gateways a change concerns.
use crate::kubernetes::parent_ref::GATEWAY_GROUP;
use crate::kubernetes::resources::{
    Gateway, GatewayListeners, GatewayView, RouteParentRef, RouteParentRefView,
};
use crate::lists::{contains_same, filter_map_vec};
use crate::text;
use crate::text::{chars_of, opt_is, opt_or, str_eq, trim_bounds};
use vstd::prelude::*;

verus! {

/// The resources that a data plane watches beyond routes. Routes are not among
/// them: a route of any kind in any namespace may name the Gateway and has to
/// get a status, so routes are always watched.
#[derive(Clone, Copy, Debug, PartialEq, Eq, Structural)]
pub struct WatchShape {
    pub tls_secrets: bool,
    pub namespaces: bool,
}

/// The parts of a text between commas.
pub open spec fn comma_parts(s: Seq<char>) -> Seq<Seq<char>>
    decreases s.len(),
{
    let i = text::first_index(s, ',');
    if 0 <= i < s.len() {
        seq![s.take(i)] + comma_parts(s.skip(i + 1))
    } else {
        seq![s]
    }
}

/// Whether a token is among the parts of a text, white space aside.
pub open spec fn has_token(s: Seq<char>, token: Seq<char>) -> bool {
    exists|i: int| 0 <= i < comma_parts(s).len() && text::trimmed(#[trigger] comma_parts(s)[i]) == token
}

impl WatchShape {
    /// Everything that can be left out is watched.
    pub fn all() -> (r: Self)
        ensures
            r == (WatchShape { tls_secrets: true, namespaces: true }),
    {
        WatchShape { tls_secrets: true, namespaces: true }
    }

    /// The shape that a list of tokens names: `tls` for the Secrets of TLS
    /// listeners, `ns-labels` for the labels of namespaces. Other tokens are
    /// ignored. Without a list, everything is watched.
    pub fn parse(spec: Option<&str>) -> (r: Self)
        ensures
            match spec {
                None => r == (WatchShape { tls_secrets: true, namespaces: true }),
                Some(s) => r == (WatchShape {
                    tls_secrets: has_token(s@, "tls"@),
                    namespaces: has_token(s@, "ns-labels"@),
                }),
            },
    {
        let list = match spec {
            None => return Self::all(),
            Some(s) => s,
        };
        let v = chars_of(list);
        let n = v.len();
        let ghost parts = comma_parts(list@);
        let mut shape = WatchShape { tls_secrets: false, namespaces: false };
        let mut from: usize = 0;
        let ghost mut done: int = 0;
        proof {
            assert(list@.skip(0) =~= list@);
            assert(parts.skip(0) =~= parts);
        }
        loop
            invariant
                from <= n == v@.len(),
                spec == Some(list),
                v@ == list@,
                parts == comma_parts(list@),
                0 <= done <= parts.len(),
                parts.skip(done) == comma_parts(list@.skip(from as int)),
                shape.tls_secrets == exists|i: int|
                    0 <= i < done && text::trimmed(#[trigger] parts[i]) == "tls"@,
                shape.namespaces == exists|i: int|
                    0 <= i < done && text::trimmed(#[trigger] parts[i]) == "ns-labels"@,
            decreases n - from,
        {
            let ghost rest = list@.skip(from as int);
            let mut to: usize = from;
            while to < n && v[to] != ','
                invariant
                    from <= to <= n == v@.len(),
                    v@ == list@,
                    rest == list@.skip(from as int),
                    forall|j: int| 0 <= j < to - from ==> rest[j] != ',',
                decreases n - to,
            {
                assert(rest[to - from] == v@[to as int]);
                to += 1;
            }
            let (a, b) = trim_bounds(&v, from, to);
            let token = list.substring_char(a, b);
            let is_tls = str_eq(token, "tls");
            let is_ns = str_eq(token, "ns-labels");
            proof {
                text::lemma_first_index(rest, ',');
                if to < n {
                    assert(rest[to - from] == v@[to as int]);
                }
                assert(text::first_index(rest, ',') == to - from);
                assert(v@.subrange(from as int, to as int) =~= rest.take(to - from));
                if to < n {
                    assert(rest.skip(to - from + 1) =~= list@.skip(to + 1));
                }
                assert(rest.take(rest.len() as int) =~= rest);
                let cur = comma_parts(rest);
                assert(cur.len() >= 1);
                assert(parts.skip(done).len() == parts.len() - done);
                assert(cur[0] == rest.take(to - from));
                assert(parts.skip(done)[0] == parts[done]);
                assert(text::trimmed(parts[done]) == token@);
                assert(parts.skip(done + 1) =~= cur.skip(1));
                if to < n {
                    assert(cur.skip(1) =~= comma_parts(list@.skip(to + 1)));
                } else {
                    assert(cur.len() == 1);
                }
            }
            if is_tls {
                shape.tls_secrets = true;
            }
            if is_ns {
                shape.namespaces = true;
            }
            proof {
                done = done + 1;
            }
            if to >= n {
                assert(done == parts.len());
                return shape;
            }
            from = to + 1;
        }
    }
}

// ---------------------------------------------------------------------------
// From a change to Gateways
// ---------------------------------------------------------------------------

impl RouteParentRefView {
    /// The Gateway that the reference of a route in `route_ns` names, as
    /// (name, namespace), if it names one.
    pub open spec fn named_gateway(self, route_ns: Seq<char>) -> Option<(Seq<char>, Seq<char>)> {
        if (self.group is None || self.group == Some(GATEWAY_GROUP@)) && (self.kind is None
            || self.kind == Some("Gateway"@)) {
            Some((self.name, text::or_text(self.namespace, route_ns)))
        } else {
            None
        }
    }
}

/// The Gateways, by (name, namespace), that a route in `route_ns` names and
/// that are among `known`, in the order of its references.
pub fn map_route_to_gateways(
    route_ns: &str,
    parent_refs: &Option<Vec<RouteParentRef>>,
    known: &Vec<(String, String)>,
) -> (r: Vec<(String, String)>)
    ensures
        r.deep_view() == match parent_refs.deep_view() {
            Some(refs) => refs.filter_map(
                |pr: RouteParentRefView|
                    match pr.named_gateway(route_ns@) {
                        Some(g) => if known.deep_view().contains(g) {
                            Some(g)
                        } else {
                            None
                        },
                        None => None,
                    },
            ),
            None => Seq::empty(),
        },
{
    match parent_refs {
        None => {
            let none: Vec<(String, String)> = Vec::new();
            assert(none.deep_view() =~= Seq::<(Seq<char>, Seq<char>)>::empty());
            none
        },
        Some(refs) => {
            let ghost g = |pr: RouteParentRefView|
                match pr.named_gateway(route_ns@) {
                    Some(g) => if known.deep_view().contains(g) {
                        Some(g)
                    } else {
                        None
                    },
                    None => None,
                };
            filter_map_vec(
                refs,
                |pr: &RouteParentRef| -> (o: Option<(String, String)>)
                    ensures
                        o.deep_view() == g(pr.deep_view())
                    {
                        if !(pr.group.is_none() || opt_is(&pr.group, GATEWAY_GROUP)) || !(
                        pr.kind.is_none() || opt_is(&pr.kind, "Gateway")) {
                            return None;
                        }
                        let key = (pr.name.clone(), opt_or(&pr.namespace, route_ns).to_owned());
                        if contains_same(known, &key) {
                            Some(key)
                        } else {
                            None
                        }
                    },
                Ghost(g),
            )
        },
    }
}

impl GatewayView {
    /// Whether a listener of the Gateway names the Secret.
    pub open spec fn uses_secret(self, name: Seq<char>, ns: Seq<char>) -> bool {
        exists|i: int, j: int|
            #![trigger self.spec.listeners[i].cert_refs()[j]]
            0 <= i < self.spec.listeners.len() && 0 <= j
                < self.spec.listeners[i].cert_refs().len()
                && self.spec.listeners[i].cert_refs()[j].secret_key(self.namespace()) == (name, ns)
    }
}

fn listener_uses_secret(l: &GatewayListeners, gw_ns: &str, name: &str, ns: &str) -> (r: bool)
    ensures
        r == exists|j: int|
            0 <= j < l.deep_view().cert_refs().len() && (
            #[trigger] l.deep_view().cert_refs()[j]).secret_key(gw_ns@) == (name@, ns@),
{
    let ghost c = l.deep_view().cert_refs();
    if let Some(tls) = &l.tls {
        if let Some(refs) = &tls.certificate_refs {
            let mut i: usize = 0;
            assert(c == refs.deep_view());
            while i < refs.len()
                invariant
                    i <= refs.len(),
                    c == refs.deep_view(),
                    c == l.deep_view().cert_refs(),
                    forall|j: int|
                        0 <= j < i ==> (#[trigger] c[j]).secret_key(gw_ns@) != (name@, ns@),
                decreases refs.len() - i,
            {
                assert(c[i as int] == refs@[i as int].deep_view());
                if str_eq(refs[i].name.as_str(), name) && str_eq(
                    opt_or(&refs[i].namespace, gw_ns),
                    ns,
                ) {
                    assert(c[i as int].secret_key(gw_ns@) == (name@, ns@));
                    return true;
                }
                i += 1;
            }
        }
    }
    false
}

/// Whether a change of the Secret `secret_name` in `secret_ns` concerns the
/// Gateway.
pub fn gateway_uses_secret(gateway: &Gateway, secret_name: &str, secret_ns: &str) -> (r: bool)
    ensures
        r == gateway.deep_view().uses_secret(secret_name@, secret_ns@),
{
    let gw_ns = opt_or(&gateway.metadata.namespace, "default");
    let ghost v = gateway.deep_view();
    let mut i: usize = 0;
    while i < gateway.spec.listeners.len()
        invariant
            i <= gateway.spec.listeners.len(),
            v == gateway.deep_view(),
            gw_ns@ == v.namespace(),
            forall|k: int, j: int|
                #![trigger v.spec.listeners[k].cert_refs()[j]]
                0 <= k < i && 0 <= j < v.spec.listeners[k].cert_refs().len()
                    ==> v.spec.listeners[k].cert_refs()[j].secret_key(v.namespace()) != (
                    secret_name@,
                    secret_ns@,
                ),
        decreases gateway.spec.listeners.len() - i,
    {
        assert(v.spec.listeners[i as int] == gateway.spec.listeners@[i as int].deep_view());
        if listener_uses_secret(&gateway.spec.listeners[i], gw_ns, secret_name, secret_ns) {
            return true;
        }
        i += 1;
    }
    false
}

proof fn lemma_parts_of_joined_lists(a: Seq<char>, b: Seq<char>)
    ensures
        comma_parts(a + seq![','] + b) == comma_parts(a) + comma_parts(b),
    decreases a.len(),
{
    let s = a + seq![','] + b;
    let i = text::first_index(a, ',');
    text::lemma_first_index(a, ',');
    text::lemma_first_index(s, ',');
    assert(s[a.len() as int] == ',');
    assert(forall|j: int| 0 <= j < a.len() ==> s[j] == a[j]);
    if i < a.len() {
        assert(text::first_index(s, ',') == i);
        assert(s.take(i) =~= a.take(i));
        assert(s.skip(i + 1) =~= a.skip(i + 1) + seq![','] + b);
        lemma_parts_of_joined_lists(a.skip(i + 1), b);
        assert(comma_parts(s) =~= comma_parts(a) + comma_parts(b));
    } else {
        assert(text::first_index(s, ',') == a.len());
        assert(s.take(a.len() as int) =~= a);
        assert(s.skip(a.len() as int + 1) =~= b);
        assert(comma_parts(s) =~= comma_parts(a) + comma_parts(b));
    }
}

/// Lists add up: two of them, put together with a comma, name the tokens that
/// either names. So the order of tokens does not matter, and a token that
/// nothing knows changes nothing for the others.
pub proof fn law_lists_add_up(a: Seq<char>, b: Seq<char>, token: Seq<char>)
    ensures
        has_token(a + seq![','] + b, token) == (has_token(a, token) || has_token(b, token)),
{
    let s = a + seq![','] + b;
    lemma_parts_of_joined_lists(a, b);
    let (p, q, r) = (comma_parts(a), comma_parts(b), comma_parts(s));
    assert(forall|i: int| 0 <= i < p.len() ==> r[i] == #[trigger] p[i]);
    assert forall|i: int| 0 <= i < q.len() implies r[p.len() + i] == #[trigger] q[i] by {}
    if has_token(a, token) {
        let i = choose|i: int| 0 <= i < p.len() && text::trimmed(#[trigger] p[i]) == token;
        assert(text::trimmed(r[i]) == token);
    }
    if has_token(b, token) {
        let i = choose|i: int| 0 <= i < q.len() && text::trimmed(#[trigger] q[i]) == token;
        assert(text::trimmed(r[p.len() + i]) == token);
    }
    if has_token(s, token) {
        let i = choose|i: int| 0 <= i < r.len() && text::trimmed(#[trigger] r[i]) == token;
        if i < p.len() {
            assert(text::trimmed(p[i]) == token);
        } else {
            assert(text::trimmed(q[i - p.len()]) == token);
        }
    }
}

/// A list without a comma names one token: the text itself, white space aside.
pub proof fn law_one_token(s: Seq<char>, token: Seq<char>)
    requires
        !s.contains(','),
    ensures
        has_token(s, token) <==> text::trimmed(s) == token,
{
    text::lemma_first_index(s, ',');
    assert(forall|i: int| 0 <= i < s.len() ==> s.contains(#[trigger] s[i]));
    let p = comma_parts(s);
    assert(p =~= seq![s]);
    assert(p[0] == s);
}

/// A reference names the Gateway of its name in its own namespace, else in the
/// route's, unless it names another group or kind.
pub proof fn law_named_gateways(pr: RouteParentRefView, route_ns: Seq<char>)
    ensures
        ({
            let named = pr.named_gateway(route_ns);
            &&& named is None <==> (pr.group is Some && pr.group->0
                != "gateway.networking.k8s.io"@) || (pr.kind is Some && pr.kind->0 != "Gateway"@)
            &&& named is Some ==> (named->0).0 == pr.name && (named->0).1 == (if pr.namespace is Some {
                pr.namespace->0
            } else {
                route_ns
            })
        }),
{
}

/// A Gateway uses a Secret where a certificate reference of one of its
/// listeners has its name, in the namespace that the reference gives, else in
/// the Gateway's, which is `default` where none is given.
pub proof fn law_used_secrets(gateway: GatewayView, name: Seq<char>, ns: Seq<char>)
    ensures
        gateway.uses_secret(name, ns) <==> exists|i: int, j: int|
            #![trigger gateway.spec.listeners[i].cert_refs()[j]]
            {
                let r = gateway.spec.listeners[i].cert_refs()[j];
                &&& 0 <= i < gateway.spec.listeners.len()
                &&& 0 <= j < gateway.spec.listeners[i].cert_refs().len()
                &&& r.name == name
                &&& ns == (if r.namespace is Some {
                    r.namespace->0
                } else if gateway.metadata.namespace is Some {
                    gateway.metadata.namespace->0
                } else {
                    "default"@
                })
            },
{
}

/// The certificate references of a listener are those of its TLS section.
pub proof fn law_certificate_references(l: crate::kubernetes::resources::GatewayListenersView)
    ensures
        l.tls is None ==> l.cert_refs().len() == 0,
        l.tls is Some && l.tls->0.certificate_refs is None ==> l.cert_refs().len() == 0,
        l.tls is Some && l.tls->0.certificate_refs is Some ==> l.cert_refs()
            == l.tls->0.certificate_refs->0,
{
}

/// A route concerns the Gateways that its references name, as far as they are
/// known: one more reference adds the Gateway that it names, or nothing.
pub proof fn law_routes_concern_named_gateways(
    route_ns: &str,
    some: &Option<Vec<RouteParentRef>>,
    more: &Option<Vec<RouteParentRef>>,
    pr: RouteParentRefView,
    known: &Vec<(String, String)>,
    few: Vec<(String, String)>,
    many: Vec<(String, String)>,
)
    requires
        some.deep_view() is Some,
        more.deep_view() == Some(some.deep_view()->0.push(pr)),
        call_ensures(map_route_to_gateways, (route_ns, some, known), few),
        call_ensures(map_route_to_gateways, (route_ns, more, known), many),
    ensures
        ({
            let named = pr.named_gateway(route_ns@);
            &&& some.deep_view()->0.len() == 0 ==> few.deep_view().len() == 0
            &&& named is Some && known.deep_view().contains(named->0) ==> many.deep_view()
                == few.deep_view().push(named->0)
            &&& named is None || !known.deep_view().contains(named->0) ==> many.deep_view()
                == few.deep_view()
        }),
{
    let refs = some.deep_view()->0;
    reveal_with_fuel(Seq::filter_map, 2);
    assert(refs.push(pr).drop_last() =~= refs);
    assert(refs.push(pr).last() == pr);
}

} // verus!
