//! ReferenceGrant checks and the admission of routes by listeners.
use crate::kubernetes::hostname;
use crate::kubernetes::hostname::hostnames_intersect;
use crate::kubernetes::resources::{
    GatewayListeners, GatewayListenersAllowedRoutesKindsView,
    GatewayListenersAllowedRoutesNamespacesFrom, GatewayListenersAllowedRoutesNamespacesView,
    GatewayListenersAllowedRoutesView, GatewayListenersView,
    LabelSelector, LabelSelectorRequirement, LabelSelectorRequirementView, LabelSelectorView,
    ReferenceGrant, ReferenceGrantFromView, ReferenceGrantToView, ReferenceGrantView, RouteParentRef,
    RouteParentRefView,
};
use crate::table;
use crate::table::Table;
use crate::text;
use crate::text::{opt_or, str_eq, strings_contain};
use vstd::prelude::*;

verus! {

impl LabelSelectorRequirementView {
    /// Whether the requirement holds of a namespace's labels. An operator that
    /// is none of the four known ones holds of nothing.
    pub open spec fn holds(self, labels: Map<Seq<char>, Seq<char>>) -> bool {
        let vals = match self.values {
            Some(v) => v,
            None => Seq::empty(),
        };
        let has = labels.dom().contains(self.key);
        let listed = has && vals.contains(labels[self.key]);
        if self.operator == "In"@ {
            listed
        } else if self.operator == "NotIn"@ {
            !listed
        } else if self.operator == "Exists"@ {
            has
        } else if self.operator == "DoesNotExist"@ {
            !has
        } else {
            false
        }
    }
}

impl LabelSelectorView {
    /// Whether the selector picks a namespace with these labels.
    pub open spec fn selects(self, labels: Map<Seq<char>, Seq<char>>) -> bool {
        &&& match self.match_labels {
            Some(m) => m.submap_of(labels),
            None => true,
        }
        &&& match self.match_expressions {
            Some(exprs) => forall|i: int|
                0 <= i < exprs.len() ==> (#[trigger] exprs[i]).holds(labels),
            None => true,
        }
    }
}

/// Whether a listener with this protocol serves routes of this kind. A
/// protocol that is not known rules nothing out.
pub open spec fn protocol_allows(protocol: Seq<char>, kind: Seq<char>) -> bool {
    if protocol == "HTTP"@ || protocol == "HTTPS"@ {
        kind == "HTTPRoute"@
    } else if protocol == "TLS"@ {
        kind == "TLSRoute"@
    } else if protocol == "TCP"@ {
        kind == "TCPRoute"@
    } else if protocol == "UDP"@ {
        kind == "UDPRoute"@
    } else {
        true
    }
}

impl GatewayListenersView {
    /// Whether the listener's list of kinds, if it has one, holds `kind`.
    pub open spec fn kind_listed(self, kind: Seq<char>) -> bool {
        match self.allowed_routes {
            Some(ar) => match ar.kinds {
                Some(kinds) => kinds.len() == 0 || exists|i: int|
                    0 <= i < kinds.len() && (#[trigger] kinds[i]).kind == kind,
                None => true,
            },
            None => true,
        }
    }

    /// Whether the listener of a Gateway in `gateway_ns` admits routes from
    /// the namespace `route_ns`.
    pub open spec fn admits_namespace(
        self,
        gateway_ns: Seq<char>,
        route_ns: Seq<char>,
        namespace_labels: Map<Seq<char>, Map<Seq<char>, Seq<char>>>,
    ) -> bool {
        match self.allowed_routes {
            None => route_ns == gateway_ns,
            Some(ar) => match ar.namespaces {
                None => route_ns == gateway_ns,
                Some(n) => match n.from {
                    None => route_ns == gateway_ns,
                    Some(GatewayListenersAllowedRoutesNamespacesFrom::Same) => route_ns
                        == gateway_ns,
                    Some(GatewayListenersAllowedRoutesNamespacesFrom::All) => true,
                    Some(GatewayListenersAllowedRoutesNamespacesFrom::Selector) => {
                        namespace_labels.dom().contains(route_ns) && match n.selector {
                            Some(s) => s.selects(namespace_labels[route_ns]),
                            None => true,
                        }
                    },
                },
            },
        }
    }

    /// Whether the listener's policy admits a route.
    pub open spec fn admits(
        self,
        gateway_ns: Seq<char>,
        route_ns: Seq<char>,
        kind: Seq<char>,
        namespace_labels: Map<Seq<char>, Map<Seq<char>, Seq<char>>>,
    ) -> bool {
        &&& protocol_allows(self.protocol, kind)
        &&& self.kind_listed(kind)
        &&& self.admits_namespace(gateway_ns, route_ns, namespace_labels)
    }

    /// Whether a parent reference picks the listener by section and port.
    pub open spec fn picked_by(self, pr: RouteParentRefView) -> bool {
        &&& pr.section_name is None || pr.section_name == Some(self.name)
        &&& pr.port is None || pr.port == Some(self.port)
    }
}

fn requirement_holds(expr: &LabelSelectorRequirement, labels: &Table<String, String>) -> (r: bool)
    ensures
        r == expr.deep_view().holds(labels.deep_view()),
{
    let has = labels.get(&expr.key);
    let listed = match has {
        Some(v) => match &expr.values {
            Some(vals) => strings_contain(vals, v.as_str()),
            None => false,
        },
        None => false,
    };
    if str_eq(expr.operator.as_str(), "In") {
        listed
    } else if str_eq(expr.operator.as_str(), "NotIn") {
        !listed
    } else if str_eq(expr.operator.as_str(), "Exists") {
        has.is_some()
    } else if str_eq(expr.operator.as_str(), "DoesNotExist") {
        has.is_none()
    } else {
        false
    }
}

fn labels_match(match_labels: &Table<String, String>, labels: &Table<String, String>) -> (r: bool)
    ensures
        r == match_labels.deep_view().submap_of(labels.deep_view()),
{
    let ghost e = match_labels.entries.deep_view();
    let ghost m = match_labels.deep_view();
    let ghost l = labels.deep_view();
    let mut i: usize = 0;
    while i < match_labels.entries.len()
        invariant
            i <= match_labels.entries.len(),
            e == match_labels.entries.deep_view(),
            m == match_labels.deep_view(),
            l == labels.deep_view(),
            forall|j: int|
                0 <= j < i ==> l.dom().contains((#[trigger] e[j]).0) && m.dom().contains(e[j].0)
                    && l[e[j].0] == m[e[j].0],
        decreases match_labels.entries.len() - i,
    {
        let k = &match_labels.entries[i].0;
        assert(e[i as int].0 == k@);
        let same = match (match_labels.get(k), labels.get(k)) {
            (Some(a), Some(b)) => str_eq(a.as_str(), b.as_str()),
            _ => false,
        };
        proof {
            table::lemma_entries_dom(e, k@);
        }
        if !same {
            return false;
        }
        i += 1;
    }
    proof {
        assert forall|k: Seq<char>| #[trigger] m.dom().contains(k) implies l.dom().contains(k)
            && l[k] == m[k] by {
            table::lemma_entries_dom(e, k);
            let j = choose|j: int| 0 <= j < e.len() && (#[trigger] e[j]).0 == k;
            assert(e[j].0 == k);
        }
    }
    true
}

fn selector_selects(selector: &LabelSelector, labels: &Table<String, String>) -> (r: bool)
    ensures
        r == selector.deep_view().selects(labels.deep_view()),
{
    if let Some(m) = &selector.match_labels {
        if !labels_match(m, labels) {
            return false;
        }
    }
    if let Some(exprs) = &selector.match_expressions {
        let ghost v = exprs.deep_view();
        let mut i: usize = 0;
        while i < exprs.len()
            invariant
                i <= exprs.len(),
                v == exprs.deep_view(),
                selector.deep_view().match_expressions == Some(v),
                forall|j: int| 0 <= j < i ==> (#[trigger] v[j]).holds(labels.deep_view()),
            decreases exprs.len() - i,
        {
            assert(v[i as int] == exprs@[i as int].deep_view());
            if !requirement_holds(&exprs[i], labels) {
                assert(!selector.deep_view().match_expressions->0[i as int].holds(labels.deep_view()));
                return false;
            }
            i += 1;
        }
    }
    true
}

fn kind_is_listed(listener: &GatewayListeners, route_kind: &str) -> (r: bool)
    ensures
        r == listener.deep_view().kind_listed(route_kind@),
{
    if let Some(ar) = &listener.allowed_routes {
        if let Some(kinds) = &ar.kinds {
            if kinds.len() == 0 {
                return true;
            }
            let ghost v = kinds.deep_view();
            let mut i: usize = 0;
            while i < kinds.len()
                invariant
                    i <= kinds.len(),
                    kinds.len() > 0,
                    v == kinds.deep_view(),
                    listener.allowed_routes is Some,
                    listener.allowed_routes->0.kinds == Some(*kinds),
                    forall|j: int| 0 <= j < i ==> (#[trigger] v[j]).kind != route_kind@,
                decreases kinds.len() - i,
            {
                assert(v[i as int] == kinds@[i as int].deep_view());
                if str_eq(kinds[i].kind.as_str(), route_kind) {
                    return true;
                }
                i += 1;
            }
            return false;
        }
    }
    true
}

/// Whether the policy of `listener`, of a Gateway in `gateway_ns`, admits a
/// route of kind `route_kind` in `route_ns`.
pub fn is_route_allowed_by_listener(
    listener: &GatewayListeners,
    gateway_ns: &str,
    route_ns: &str,
    route_kind: &str,
    namespace_labels: &Table<String, Table<String, String>>,
) -> (r: bool)
    ensures
        r == listener.deep_view().admits(
            gateway_ns@,
            route_ns@,
            route_kind@,
            namespace_labels.deep_view(),
        ),
{
    let protocol = listener.protocol.as_str();
    let protocol_ok = if str_eq(protocol, "HTTP") || str_eq(protocol, "HTTPS") {
        str_eq(route_kind, "HTTPRoute")
    } else if str_eq(protocol, "TLS") {
        str_eq(route_kind, "TLSRoute")
    } else if str_eq(protocol, "TCP") {
        str_eq(route_kind, "TCPRoute")
    } else if str_eq(protocol, "UDP") {
        str_eq(route_kind, "UDPRoute")
    } else {
        true
    };
    if !protocol_ok || !kind_is_listed(listener, route_kind) {
        return false;
    }
    let same_ns = str_eq(route_ns, gateway_ns);
    match &listener.allowed_routes {
        None => same_ns,
        Some(ar) => match &ar.namespaces {
            None => same_ns,
            Some(n) => match n.from {
                None => same_ns,
                Some(GatewayListenersAllowedRoutesNamespacesFrom::Same) => same_ns,
                Some(GatewayListenersAllowedRoutesNamespacesFrom::All) => true,
                Some(GatewayListenersAllowedRoutesNamespacesFrom::Selector) => {
                    let ns = route_ns.to_owned();
                    match namespace_labels.get(&ns) {
                        None => false,
                        Some(labels) => match &n.selector {
                            Some(s) => selector_selects(s, labels),
                            None => true,
                        },
                    }
                },
            },
        },
    }
}

/// Why no listener took a parent reference, from the least to the most
/// specific reason.
#[derive(Clone, Copy, Debug, PartialEq, Eq, Structural)]
pub enum Rejection {
    NoMatchingParent,
    NoMatchingListenerHostname,
    NotAllowedByListeners,
}

impl Rejection {
    /// The reason as a condition reports it.
    pub open spec fn spec_reason(self) -> Seq<char> {
        match self {
            Rejection::NoMatchingParent => "NoMatchingParent"@,
            Rejection::NoMatchingListenerHostname => "NoMatchingListenerHostname"@,
            Rejection::NotAllowedByListeners => "NotAllowedByListeners"@,
        }
    }

    /// The reason as a condition reports it.
    pub fn reason(&self) -> (r: &'static str)
        ensures
            r@ == self.spec_reason(),
    {
        match self {
            Rejection::NoMatchingParent => "NoMatchingParent",
            Rejection::NoMatchingListenerHostname => "NoMatchingListenerHostname",
            Rejection::NotAllowedByListeners => "NotAllowedByListeners",
        }
    }
}

/// What a route brings to the question which listeners take it.
pub struct RouteTraits {
    pub gateway_ns: Seq<char>,
    pub route_ns: Seq<char>,
    pub kind: Seq<char>,
    pub hostnames: Seq<Seq<char>>,
    pub namespace_labels: Map<Seq<char>, Map<Seq<char>, Seq<char>>>,
}

impl GatewayListenersView {
    /// Whether the listener and the route have a host name in common.
    pub open spec fn shares_hostname(self, t: RouteTraits) -> bool {
        hostname::hostnames_meet(self.hostname, t.hostnames)
    }

    /// Whether a route attaches to the listener through the reference `pr`.
    pub open spec fn takes(self, pr: RouteParentRefView, t: RouteTraits) -> bool {
        &&& self.picked_by(pr)
        &&& self.shares_hostname(t)
        &&& self.admits(t.gateway_ns, t.route_ns, t.kind, t.namespace_labels)
    }
}

/// The names of the listeners that take the reference, in order.
pub open spec fn taking_listeners(
    listeners: Seq<GatewayListenersView>,
    pr: RouteParentRefView,
    t: RouteTraits,
) -> Seq<Seq<char>>
    decreases listeners.len(),
{
    if listeners.len() == 0 {
        Seq::empty()
    } else {
        let rest = taking_listeners(listeners.drop_last(), pr, t);
        if listeners.last().takes(pr, t) {
            rest.push(listeners.last().name)
        } else {
            rest
        }
    }
}

/// Some listener that the reference picks shares a host name with the route
/// and yet does not admit it.
pub open spec fn refused_by_policy(
    listeners: Seq<GatewayListenersView>,
    pr: RouteParentRefView,
    t: RouteTraits,
) -> bool {
    exists|i: int|
        0 <= i < listeners.len() && {
            &&& (#[trigger] listeners[i]).picked_by(pr)
            &&& listeners[i].shares_hostname(t)
            &&& !listeners[i].admits(t.gateway_ns, t.route_ns, t.kind, t.namespace_labels)
        }
}

/// Some listener that the reference picks shares no host name with the route.
pub open spec fn refused_by_hostname(
    listeners: Seq<GatewayListenersView>,
    pr: RouteParentRefView,
    t: RouteTraits,
) -> bool {
    exists|i: int|
        0 <= i < listeners.len() && (#[trigger] listeners[i]).picked_by(pr)
            && !listeners[i].shares_hostname(t)
}

/// The verdict on one parent reference: the listeners that take it or, where
/// none does, the most specific reason.
pub open spec fn verdict(
    listeners: Seq<GatewayListenersView>,
    pr: RouteParentRefView,
    t: RouteTraits,
) -> Result<Seq<Seq<char>>, Rejection> {
    if taking_listeners(listeners, pr, t).len() > 0 {
        Ok(taking_listeners(listeners, pr, t))
    } else if refused_by_policy(listeners, pr, t) {
        Err(Rejection::NotAllowedByListeners)
    } else if refused_by_hostname(listeners, pr, t) {
        Err(Rejection::NoMatchingListenerHostname)
    } else {
        Err(Rejection::NoMatchingParent)
    }
}

/// What a verdict denotes.
pub open spec fn verdict_view(r: Result<Vec<String>, Rejection>) -> Result<Seq<Seq<char>>, Rejection> {
    match r {
        Ok(names) => Ok(names.deep_view()),
        Err(e) => Err(e),
    }
}

/// The listeners that one parent reference picks and may attach to. The
/// verdict is that of a single reference: a reference to a section that
/// refuses the route gains nothing from its siblings.
pub fn listeners_for_parent_ref(
    pr: &RouteParentRef,
    listeners: &Vec<GatewayListeners>,
    gateway_ns: &str,
    route_ns: &str,
    route_kind: &str,
    route_hostnames: &Vec<String>,
    namespace_labels: &Table<String, Table<String, String>>,
) -> (r: Result<Vec<String>, Rejection>)
    ensures
        verdict_view(r) == verdict(
            listeners.deep_view(),
            pr.deep_view(),
            (RouteTraits {
                gateway_ns: gateway_ns@,
                route_ns: route_ns@,
                kind: route_kind@,
                hostnames: route_hostnames.deep_view(),
                namespace_labels: namespace_labels.deep_view(),
            }),
        ),
{
    let ghost t = RouteTraits {
        gateway_ns: gateway_ns@,
        route_ns: route_ns@,
        kind: route_kind@,
        hostnames: route_hostnames.deep_view(),
        namespace_labels: namespace_labels.deep_view(),
    };
    let ghost p = pr.deep_view();
    let ghost v = listeners.deep_view();
    let mut allowed: Vec<String> = Vec::new();
    let mut best = Rejection::NoMatchingParent;
    let mut i: usize = 0;
    proof {
        assert(allowed.deep_view() =~= taking_listeners(v.take(0), p, t));
    }
    while i < listeners.len()
        invariant
            i <= listeners.len(),
            v == listeners.deep_view(),
            p == pr.deep_view(),
            t == (RouteTraits {
                gateway_ns: gateway_ns@,
                route_ns: route_ns@,
                kind: route_kind@,
                hostnames: route_hostnames.deep_view(),
                namespace_labels: namespace_labels.deep_view(),
            }),
            allowed.deep_view() == taking_listeners(v.take(i as int), p, t),
            best == (if refused_by_policy(v.take(i as int), p, t) {
                Rejection::NotAllowedByListeners
            } else if refused_by_hostname(v.take(i as int), p, t) {
                Rejection::NoMatchingListenerHostname
            } else {
                Rejection::NoMatchingParent
            }),
        decreases listeners.len() - i,
    {
        let l = &listeners[i];
        let ghost s0 = v.take(i as int);
        let ghost s1 = v.take(i + 1);
        let ghost before = allowed.deep_view();
        proof {
            assert(s1.drop_last() =~= s0);
            assert(s1.last() == l.deep_view());
            lemma_refused_step(s1, p, t);
        }
        let picked = (match &pr.section_name {
            Some(section) => str_eq(section.as_str(), l.name.as_str()),
            None => true,
        }) && (match pr.port {
            Some(port) => port == l.port,
            None => true,
        });
        if picked {
            if !hostnames_intersect(&l.hostname, route_hostnames) {
                if best == Rejection::NoMatchingParent {
                    best = Rejection::NoMatchingListenerHostname;
                }
            } else if is_route_allowed_by_listener(
                l,
                gateway_ns,
                route_ns,
                route_kind,
                namespace_labels,
            ) {
                allowed.push(l.name.clone());
                assert(allowed.deep_view() =~= before.push(l.deep_view().name));
            } else {
                best = Rejection::NotAllowedByListeners;
            }
        }
        i += 1;
    }
    proof {
        assert(v.take(v.len() as int) =~= v);
    }
    if allowed.len() == 0 {
        Err(best)
    } else {
        Ok(allowed)
    }
}

proof fn lemma_refused_step(s: Seq<GatewayListenersView>, p: RouteParentRefView, t: RouteTraits)
    requires
        s.len() > 0,
    ensures
        refused_by_policy(s, p, t) == (refused_by_policy(s.drop_last(), p, t) || (s.last().picked_by(p)
            && s.last().shares_hostname(t) && !s.last().admits(
            t.gateway_ns,
            t.route_ns,
            t.kind,
            t.namespace_labels,
        ))),
        refused_by_hostname(s, p, t) == (refused_by_hostname(s.drop_last(), p, t)
            || (s.last().picked_by(p) && !s.last().shares_hostname(t))),
{
    let init = s.drop_last();
    if refused_by_policy(init, p, t) {
        let i = choose|i: int|
            0 <= i < init.len() && {
                &&& (#[trigger] init[i]).picked_by(p)
                &&& init[i].shares_hostname(t)
                &&& !init[i].admits(t.gateway_ns, t.route_ns, t.kind, t.namespace_labels)
            };
        assert(s[i] == init[i]);
    }
    if refused_by_hostname(init, p, t) {
        let i = choose|i: int|
            0 <= i < init.len() && (#[trigger] init[i]).picked_by(p) && !init[i].shares_hostname(t);
        assert(s[i] == init[i]);
    }
    assert(s[s.len() - 1] == s.last());
    assert(forall|i: int| 0 <= i < init.len() ==> #[trigger] s[i] == init[i]);
    assert(forall|i: int| 0 <= i < init.len() ==> #[trigger] init[i] == s[i]);
}

impl ReferenceGrantFromView {
    pub open spec fn is(self, group: Seq<char>, kind: Seq<char>, namespace: Seq<char>) -> bool {
        self.group == group && self.kind == kind && self.namespace == namespace
    }
}

impl ReferenceGrantToView {
    pub open spec fn opens(self, group: Seq<char>, kind: Seq<char>, name: Seq<char>) -> bool {
        self.group == group && self.kind == kind && (self.name is None || self.name == Some(name))
    }
}

/// The object that a reference comes from.
pub struct RefSource {
    pub group: Seq<char>,
    pub kind: Seq<char>,
    pub namespace: Seq<char>,
}

/// The object that a reference points to.
pub struct RefTarget {
    pub group: Seq<char>,
    pub kind: Seq<char>,
    pub namespace: Seq<char>,
    pub name: Seq<char>,
}

impl ReferenceGrantView {
    /// Whether the grant lives in the target's namespace, trusts the source
    /// and opens the target.
    pub open spec fn permits(self, from: RefSource, to: RefTarget) -> bool {
        &&& text::or_text(self.metadata.namespace, "default"@) == to.namespace
        &&& exists|i: int|
            0 <= i < self.spec.from.len() && (#[trigger] self.spec.from[i]).is(
                from.group,
                from.kind,
                from.namespace,
            )
        &&& exists|i: int|
            0 <= i < self.spec.to.len() && (#[trigger] self.spec.to[i]).opens(
                to.group,
                to.kind,
                to.name,
            )
    }
}

/// Whether a reference is allowed: it stays in its namespace, or a grant
/// permits it.
pub open spec fn reference_allowed(
    grants: Seq<ReferenceGrantView>,
    from: RefSource,
    to: RefTarget,
) -> bool {
    from.namespace == to.namespace || exists|i: int|
        0 <= i < grants.len() && (#[trigger] grants[i]).permits(from, to)
}

fn grant_permits(
    grant: &ReferenceGrant,
    from_group: &str,
    from_kind: &str,
    from_namespace: &str,
    to_group: &str,
    to_kind: &str,
    to_namespace: &str,
    to_name: &str,
) -> (r: bool)
    ensures
        r == grant.deep_view().permits(
            (RefSource { group: from_group@, kind: from_kind@, namespace: from_namespace@ }),
            (RefTarget { group: to_group@, kind: to_kind@, namespace: to_namespace@, name: to_name@ }),
        ),
{
    if !str_eq(opt_or(&grant.metadata.namespace, "default"), to_namespace) {
        return false;
    }
    let ghost f = grant.deep_view().spec.from;
    let ghost o = grant.deep_view().spec.to;
    let mut from_match = false;
    let mut i: usize = 0;
    while i < grant.spec.from.len()
        invariant
            i <= grant.spec.from.len(),
            f == grant.spec.from.deep_view(),
            from_match == exists|j: int|
                0 <= j < i && (#[trigger] f[j]).is(from_group@, from_kind@, from_namespace@),
        decreases grant.spec.from.len() - i,
    {
        let x = &grant.spec.from[i];
        assert(f[i as int] == x.deep_view());
        if str_eq(x.group.as_str(), from_group) && str_eq(x.kind.as_str(), from_kind) && str_eq(
            x.namespace.as_str(),
            from_namespace,
        ) {
            from_match = true;
        }
        i += 1;
    }
    let mut to_match = false;
    let mut k: usize = 0;
    while k < grant.spec.to.len()
        invariant
            k <= grant.spec.to.len(),
            o == grant.spec.to.deep_view(),
            to_match == exists|j: int|
                0 <= j < k && (#[trigger] o[j]).opens(to_group@, to_kind@, to_name@),
        decreases grant.spec.to.len() - k,
    {
        let x = &grant.spec.to[k];
        assert(o[k as int] == x.deep_view());
        let name_ok = match &x.name {
            Some(n) => str_eq(n.as_str(), to_name),
            None => true,
        };
        if str_eq(x.group.as_str(), to_group) && str_eq(x.kind.as_str(), to_kind) && name_ok {
            to_match = true;
        }
        k += 1;
    }
    from_match && to_match
}

/// Whether a reference is allowed. Within one namespace it always is; across
/// namespaces a grant in the target's namespace has to permit it.
pub fn is_reference_allowed(
    grants: &Vec<ReferenceGrant>,
    from_group: &str,
    from_kind: &str,
    from_namespace: &str,
    to_group: &str,
    to_kind: &str,
    to_namespace: &str,
    to_name: &str,
) -> (r: bool)
    ensures
        r == reference_allowed(
            grants.deep_view(),
            (RefSource { group: from_group@, kind: from_kind@, namespace: from_namespace@ }),
            (RefTarget { group: to_group@, kind: to_kind@, namespace: to_namespace@, name: to_name@ }),
        ),
{
    if str_eq(from_namespace, to_namespace) {
        return true;
    }
    let ghost v = grants.deep_view();
    let ghost from = RefSource { group: from_group@, kind: from_kind@, namespace: from_namespace@ };
    let ghost to = RefTarget {
        group: to_group@,
        kind: to_kind@,
        namespace: to_namespace@,
        name: to_name@,
    };
    let mut i: usize = 0;
    while i < grants.len()
        invariant
            i <= grants.len(),
            v == grants.deep_view(),
            from == (RefSource {
                group: from_group@,
                kind: from_kind@,
                namespace: from_namespace@,
            }),
            to == (RefTarget {
                group: to_group@,
                kind: to_kind@,
                namespace: to_namespace@,
                name: to_name@,
            }),
            forall|j: int| 0 <= j < i ==> !(#[trigger] v[j]).permits(from, to),
        decreases grants.len() - i,
    {
        assert(v[i as int] == grants@[i as int].deep_view());
        if grant_permits(
            &grants[i],
            from_group,
            from_kind,
            from_namespace,
            to_group,
            to_kind,
            to_namespace,
            to_name,
        ) {
            return true;
        }
        i += 1;
    }
    false
}

/// A reference within one namespace needs no grant.
pub proof fn law_own_namespace_needs_no_grant(
    grants: Seq<ReferenceGrantView>,
    from: RefSource,
    to: RefTarget,
)
    requires
        from.namespace == to.namespace,
    ensures
        reference_allowed(grants, from, to),
{
}

/// A reference across namespaces is up to the owner of the target: where no
/// grant lives in the target's namespace, it is refused.
pub proof fn law_grants_come_from_the_target(
    grants: Seq<ReferenceGrantView>,
    from: RefSource,
    to: RefTarget,
)
    requires
        from.namespace != to.namespace,
        forall|i: int|
            0 <= i < grants.len() ==> text::or_text(
                (#[trigger] grants[i]).metadata.namespace,
                "default"@,
            ) != to.namespace,
    ensures
        !reference_allowed(grants, from, to),
{
}

/// Grants only ever open: a reference that some grants allow stays allowed
/// beside any others.
pub proof fn law_grants_only_open(
    before: Seq<ReferenceGrantView>,
    grants: Seq<ReferenceGrantView>,
    after: Seq<ReferenceGrantView>,
    from: RefSource,
    to: RefTarget,
)
    requires
        reference_allowed(grants, from, to),
    ensures
        reference_allowed(before + grants + after, from, to),
{
    if from.namespace != to.namespace {
        let i = choose|i: int| 0 <= i < grants.len() && (#[trigger] grants[i]).permits(from, to);
        let all = before + grants + after;
        assert(all[before.len() + i] == grants[i]);
    }
}

/// A reference attaches only to listeners that it picks, that share a
/// hostname with the route and whose policy admits the route.
pub proof fn law_attaches_only_where_admitted(
    listeners: Seq<GatewayListenersView>,
    pr: RouteParentRefView,
    t: RouteTraits,
    name: Seq<char>,
)
    requires
        taking_listeners(listeners, pr, t).contains(name),
    ensures
        exists|i: int|
            0 <= i < listeners.len() && (#[trigger] listeners[i]).name == name && listeners[i].takes(
                pr,
                t,
            ),
    decreases listeners.len(),
{
    let init = listeners.drop_last();
    let inner = taking_listeners(init, pr, t);
    assert(listeners.last() == listeners[listeners.len() - 1]);
    if inner.contains(name) {
        law_attaches_only_where_admitted(init, pr, t, name);
        let i = choose|i: int|
            0 <= i < init.len() && (#[trigger] init[i]).name == name && init[i].takes(pr, t);
        assert(listeners[i] == init[i]);
    }
}

// ---------------------------------------------------------------------------
// Laws of admission
// ---------------------------------------------------------------------------

/// The listener with another policy on namespaces, its kinds kept.
pub open spec fn with_namespaces(
    l: GatewayListenersView,
    namespaces: Option<GatewayListenersAllowedRoutesNamespacesView>,
) -> GatewayListenersView {
    GatewayListenersView {
        allowed_routes: Some(
            GatewayListenersAllowedRoutesView {
                kinds: match l.allowed_routes {
                    Some(ar) => ar.kinds,
                    None => None,
                },
                namespaces,
            },
        ),
        ..l
    }
}

/// The listener with another list of kinds, its policy on namespaces kept.
pub open spec fn with_kinds(
    l: GatewayListenersView,
    kinds: Option<Seq<GatewayListenersAllowedRoutesKindsView>>,
) -> GatewayListenersView {
    GatewayListenersView {
        allowed_routes: Some(
            GatewayListenersAllowedRoutesView {
                kinds,
                namespaces: match l.allowed_routes {
                    Some(ar) => ar.namespaces,
                    None => None,
                },
            },
        ),
        ..l
    }
}

/// The listener open to the namespaces that `selector` selects.
pub open spec fn selecting(l: GatewayListenersView, selector: Option<LabelSelectorView>) -> GatewayListenersView {
    with_namespaces(
        l,
        Some(
            GatewayListenersAllowedRoutesNamespacesView {
                from: Some(GatewayListenersAllowedRoutesNamespacesFrom::Selector),
                selector,
            },
        ),
    )
}

/// The listener open to all namespaces.
pub open spec fn open_to_all(l: GatewayListenersView) -> GatewayListenersView {
    with_namespaces(
        l,
        Some(
            GatewayListenersAllowedRoutesNamespacesView {
                from: Some(GatewayListenersAllowedRoutesNamespacesFrom::All),
                selector: None,
            },
        ),
    )
}

/// The selector that asks for one requirement alone.
pub open spec fn one_requirement(e: LabelSelectorRequirementView) -> LabelSelectorView {
    LabelSelectorView { match_labels: None, match_expressions: Some(seq![e]) }
}

/// The selector that asks for one label alone.
pub open spec fn one_label(k: Seq<char>, v: Seq<char>) -> LabelSelectorView {
    LabelSelectorView { match_labels: Some(map![k => v]), match_expressions: None }
}

proof fn lemma_operators_differ()
    ensures
        "In"@ != "NotIn"@,
        "In"@ != "Exists"@,
        "In"@ != "DoesNotExist"@,
        "NotIn"@ != "Exists"@,
        "NotIn"@ != "DoesNotExist"@,
        "Exists"@ != "DoesNotExist"@,
{
    reveal_strlit("In");
    reveal_strlit("NotIn");
    reveal_strlit("Exists");
    reveal_strlit("DoesNotExist");
    assert("In"@.len() == 2 && "NotIn"@.len() == 5 && "Exists"@.len() == 6
        && "DoesNotExist"@.len() == 12);
}

proof fn lemma_single_demands(
    l: GatewayListenersView,
    e: LabelSelectorRequirementView,
    k: Seq<char>,
    v: Seq<char>,
    gateway_ns: Seq<char>,
    route_ns: Seq<char>,
    kind: Seq<char>,
    namespace_labels: Map<Seq<char>, Map<Seq<char>, Seq<char>>>,
)
    ensures
        selecting(l, Some(one_requirement(e))).admits(gateway_ns, route_ns, kind, namespace_labels)
            <==> open_to_all(l).admits(gateway_ns, route_ns, kind, namespace_labels)
            && namespace_labels.dom().contains(route_ns) && e.holds(namespace_labels[route_ns]),
        selecting(l, Some(one_label(k, v))).admits(gateway_ns, route_ns, kind, namespace_labels)
            <==> open_to_all(l).admits(gateway_ns, route_ns, kind, namespace_labels)
            && namespace_labels.dom().contains(route_ns)
            && namespace_labels[route_ns].dom().contains(k) && namespace_labels[route_ns][k] == v,
{
    let labels = namespace_labels[route_ns];
    let x = one_requirement(e);
    let y = one_label(k, v);
    assert(x.match_expressions->0[0] == e);
    assert(x.selects(labels) <==> e.holds(labels));
    let m = map![k => v];
    assert(m.dom().contains(k) && m[k] == v);
    lemma_submap_at(m, labels, k);
    if labels.dom().contains(k) && labels[k] == v {
        assert(m.submap_of(labels));
    }
}

proof fn lemma_submap_at(m: Map<Seq<char>, Seq<char>>, labels: Map<Seq<char>, Seq<char>>, k: Seq<char>)
    requires
        m.dom().contains(k),
    ensures
        m.submap_of(labels) ==> labels.dom().contains(k) && labels[k] == m[k],
{
    if m.submap_of(labels) {
        if !labels.dom().contains(k) {
            assert(m.dom().contains(k));
        }
    }
}

/// A requirement only narrows a selector: what a listener admits by a selector,
/// it admits by each requirement and by each label of that selector alone. One
/// that fails, wherever it stands, keeps the route out.
pub proof fn law_each_requirement_narrows(
    l: GatewayListenersView,
    selector: LabelSelectorView,
    gateway_ns: Seq<char>,
    route_ns: Seq<char>,
    kind: Seq<char>,
    namespace_labels: Map<Seq<char>, Map<Seq<char>, Seq<char>>>,
)
    requires
        selecting(l, Some(selector)).admits(gateway_ns, route_ns, kind, namespace_labels),
    ensures
        selector.match_expressions matches Some(exprs) ==> forall|i: int|
            0 <= i < exprs.len() ==> #[trigger] selecting(l, Some(one_requirement(exprs[i]))).admits(
                gateway_ns,
                route_ns,
                kind,
                namespace_labels,
            ),
        selector.match_labels matches Some(m) ==> forall|k: Seq<char>|
            m.dom().contains(k) ==> #[trigger] selecting(l, Some(one_label(k, m[k]))).admits(
                gateway_ns,
                route_ns,
                kind,
                namespace_labels,
            ),
        open_to_all(l).admits(gateway_ns, route_ns, kind, namespace_labels),
{
    if let Some(exprs) = selector.match_expressions {
        assert forall|i: int| 0 <= i < exprs.len() implies #[trigger] selecting(
            l,
            Some(one_requirement(exprs[i])),
        ).admits(gateway_ns, route_ns, kind, namespace_labels) by {
            assert(exprs[i].holds(namespace_labels[route_ns]));
            lemma_single_demands(
                l,
                exprs[i],
                gateway_ns,
                gateway_ns,
                gateway_ns,
                route_ns,
                kind,
                namespace_labels,
            );
        }
    }
    if let Some(m) = selector.match_labels {
        assert forall|k: Seq<char>| m.dom().contains(k) implies #[trigger] selecting(
            l,
            Some(one_label(k, m[k])),
        ).admits(gateway_ns, route_ns, kind, namespace_labels) by {
            assert(namespace_labels[route_ns].dom().contains(k));
            lemma_single_demands(
                l,
                arbitrary(),
                k,
                m[k],
                gateway_ns,
                route_ns,
                kind,
                namespace_labels,
            );
        }
    }
}

/// A selector asks for nothing but its requirements and labels: where a
/// listener admits the route by each of them alone, it does so by the selector.
pub proof fn law_requirements_suffice(
    l: GatewayListenersView,
    selector: LabelSelectorView,
    gateway_ns: Seq<char>,
    route_ns: Seq<char>,
    kind: Seq<char>,
    namespace_labels: Map<Seq<char>, Map<Seq<char>, Seq<char>>>,
)
    requires
        namespace_labels.dom().contains(route_ns),
        open_to_all(l).admits(gateway_ns, route_ns, kind, namespace_labels),
        selector.match_expressions matches Some(exprs) ==> forall|i: int|
            0 <= i < exprs.len() ==> #[trigger] selecting(l, Some(one_requirement(exprs[i]))).admits(
                gateway_ns,
                route_ns,
                kind,
                namespace_labels,
            ),
        selector.match_labels matches Some(m) ==> forall|k: Seq<char>|
            m.dom().contains(k) ==> #[trigger] selecting(l, Some(one_label(k, m[k]))).admits(
                gateway_ns,
                route_ns,
                kind,
                namespace_labels,
            ),
    ensures
        selecting(l, Some(selector)).admits(gateway_ns, route_ns, kind, namespace_labels),
        selecting(l, None).admits(gateway_ns, route_ns, kind, namespace_labels),
{
    let labels = namespace_labels[route_ns];
    if let Some(exprs) = selector.match_expressions {
        assert forall|i: int| 0 <= i < exprs.len() implies (#[trigger] exprs[i]).holds(labels) by {
            assert(selecting(l, Some(one_requirement(exprs[i]))).admits(
                gateway_ns,
                route_ns,
                kind,
                namespace_labels,
            ));
            lemma_single_demands(
                l,
                exprs[i],
                gateway_ns,
                gateway_ns,
                gateway_ns,
                route_ns,
                kind,
                namespace_labels,
            );
        }
    }
    if let Some(m) = selector.match_labels {
        assert forall|k: Seq<char>| #[trigger] m.dom().contains(k) implies labels.dom().contains(k)
            && labels[k] == m[k] by {
            assert(selecting(l, Some(one_label(k, m[k]))).admits(
                gateway_ns,
                route_ns,
                kind,
                namespace_labels,
            ));
            lemma_single_demands(
                l,
                arbitrary(),
                k,
                m[k],
                gateway_ns,
                route_ns,
                kind,
                namespace_labels,
            );
        }
    }
}

/// What one requirement, or one label, asks of a namespace's labels.
pub proof fn law_requirement_meaning(
    l: GatewayListenersView,
    e: LabelSelectorRequirementView,
    v: Seq<char>,
    gateway_ns: Seq<char>,
    route_ns: Seq<char>,
    kind: Seq<char>,
    namespace_labels: Map<Seq<char>, Map<Seq<char>, Seq<char>>>,
)
    requires
        namespace_labels.dom().contains(route_ns),
        open_to_all(l).admits(gateway_ns, route_ns, kind, namespace_labels),
    ensures
        ({
            let labels = namespace_labels[route_ns];
            let present = labels.dom().contains(e.key);
            let admitted = selecting(l, Some(one_requirement(e))).admits(
                gateway_ns,
                route_ns,
                kind,
                namespace_labels,
            );
            &&& e.operator == "In"@ ==> (admitted <==> present && (e.values matches Some(vals)
                && vals.contains(labels[e.key])))
            &&& e.operator == "NotIn"@ ==> (admitted <==> !present || (e.values matches Some(vals)
                ==> !vals.contains(labels[e.key])))
            &&& e.operator == "Exists"@ ==> (admitted <==> present)
            &&& e.operator == "DoesNotExist"@ ==> (admitted <==> !present)
            &&& admitted ==> (e.operator == "In"@ || e.operator == "NotIn"@ || e.operator
                == "Exists"@ || e.operator == "DoesNotExist"@)
            &&& selecting(l, Some(one_label(e.key, v))).admits(
                gateway_ns,
                route_ns,
                kind,
                namespace_labels,
            ) <==> present && labels[e.key] == v
        }),
{
    lemma_operators_differ();
    lemma_single_demands(l, e, e.key, v, gateway_ns, route_ns, kind, namespace_labels);
}

/// A selector sees only namespaces that are known.
pub proof fn law_unknown_namespaces_are_not_selected(
    l: GatewayListenersView,
    selector: Option<LabelSelectorView>,
    gateway_ns: Seq<char>,
    route_ns: Seq<char>,
    kind: Seq<char>,
    namespace_labels: Map<Seq<char>, Map<Seq<char>, Seq<char>>>,
)
    requires
        !namespace_labels.dom().contains(route_ns),
    ensures
        !selecting(l, selector).admits(gateway_ns, route_ns, kind, namespace_labels),
{
}

/// A listener that says nothing of namespaces, or that asks for the same one,
/// takes routes of the Gateway's own namespace and no others; one open to all
/// does not look at the namespace.
pub proof fn law_namespace_policies(
    l: GatewayListenersView,
    n: GatewayListenersAllowedRoutesNamespacesView,
    gateway_ns: Seq<char>,
    route_ns: Seq<char>,
    other_ns: Seq<char>,
    kind: Seq<char>,
    namespace_labels: Map<Seq<char>, Map<Seq<char>, Seq<char>>>,
    other_labels: Map<Seq<char>, Map<Seq<char>, Seq<char>>>,
)
    ensures
        l.allowed_routes is None ==> (l.admits(gateway_ns, route_ns, kind, namespace_labels) <==> (
        gateway_ns == route_ns && open_to_all(l).admits(
            gateway_ns,
            route_ns,
            kind,
            namespace_labels,
        ))),
        with_namespaces(l, None).admits(gateway_ns, route_ns, kind, namespace_labels) <==> (
        gateway_ns == route_ns && open_to_all(l).admits(
            gateway_ns,
            route_ns,
            kind,
            namespace_labels,
        )),
        n.from is None || n.from == Some(GatewayListenersAllowedRoutesNamespacesFrom::Same) ==> (
        with_namespaces(l, Some(n)).admits(gateway_ns, route_ns, kind, namespace_labels) <==> (
        gateway_ns == route_ns && open_to_all(l).admits(
            gateway_ns,
            route_ns,
            kind,
            namespace_labels,
        ))),
        n.from == Some(GatewayListenersAllowedRoutesNamespacesFrom::All) ==> (with_namespaces(
            l,
            Some(n),
        ).admits(gateway_ns, route_ns, kind, namespace_labels) <==> open_to_all(l).admits(
            gateway_ns,
            other_ns,
            kind,
            other_labels,
        )),
{
}

/// A list of kinds only narrows, an empty one does not; a kind gains by being
/// listed, wherever it stands, and by nothing else.
pub proof fn law_kinds_are_listed(
    l: GatewayListenersView,
    kinds: Seq<GatewayListenersAllowedRoutesKindsView>,
    gateway_ns: Seq<char>,
    route_ns: Seq<char>,
    kind: Seq<char>,
    namespace_labels: Map<Seq<char>, Map<Seq<char>, Seq<char>>>,
)
    ensures
        with_kinds(l, Some(Seq::empty())).admits(gateway_ns, route_ns, kind, namespace_labels)
            <==> with_kinds(l, None).admits(gateway_ns, route_ns, kind, namespace_labels),
        kinds.len() > 0 ==> (with_kinds(l, Some(kinds)).admits(
            gateway_ns,
            route_ns,
            kind,
            namespace_labels,
        ) <==> with_kinds(l, None).admits(gateway_ns, route_ns, kind, namespace_labels) && kinds.map_values(
            |k: GatewayListenersAllowedRoutesKindsView| k.kind,
        ).contains(kind)),
{
    let names = kinds.map_values(|k: GatewayListenersAllowedRoutesKindsView| k.kind);
    if names.contains(kind) {
        let i = choose|i: int| 0 <= i < names.len() && names[i] == kind;
        assert(kinds[i].kind == kind);
    }
    if exists|i: int| 0 <= i < kinds.len() && (#[trigger] kinds[i]).kind == kind {
        let i = choose|i: int| 0 <= i < kinds.len() && (#[trigger] kinds[i]).kind == kind;
        assert(names[i] == kind);
    }
}

proof fn lemma_protocols_differ()
    ensures
        "HTTP"@ != "HTTPS"@,
        "HTTP"@ != "TLS"@,
        "HTTP"@ != "TCP"@,
        "HTTP"@ != "UDP"@,
        "HTTPS"@ != "TLS"@,
        "HTTPS"@ != "TCP"@,
        "HTTPS"@ != "UDP"@,
        "TLS"@ != "TCP"@,
        "TLS"@ != "UDP"@,
        "TCP"@ != "UDP"@,
{
    reveal_strlit("HTTP");
    reveal_strlit("HTTPS");
    reveal_strlit("TLS");
    reveal_strlit("TCP");
    reveal_strlit("UDP");
    assert("HTTP"@.len() == 4 && "HTTPS"@.len() == 5);
    assert("TLS"@[1] == 'L' && "TCP"@[1] == 'C' && "UDP"@[1] == 'D');
    assert("TLS"@.len() == 3 && "TCP"@.len() == 3 && "UDP"@.len() == 3);
}

/// The protocol of a listener fixes the kind of route that it serves; a
/// protocol that is not known leaves it open.
pub proof fn law_protocol_fixes_the_kind(
    l: GatewayListenersView,
    gateway_ns: Seq<char>,
    kind: Seq<char>,
    namespace_labels: Map<Seq<char>, Map<Seq<char>, Seq<char>>>,
)
    requires
        l.allowed_routes is None,
    ensures
        ({
            let admitted = l.admits(gateway_ns, gateway_ns, kind, namespace_labels);
            &&& l.protocol == "HTTP"@ ==> (admitted <==> kind == "HTTPRoute"@)
            &&& l.protocol == "HTTPS"@ ==> (admitted <==> kind == "HTTPRoute"@)
            &&& l.protocol == "TLS"@ ==> (admitted <==> kind == "TLSRoute"@)
            &&& l.protocol == "TCP"@ ==> (admitted <==> kind == "TCPRoute"@)
            &&& l.protocol == "UDP"@ ==> (admitted <==> kind == "UDPRoute"@)
            &&& !(l.protocol == "HTTP"@ || l.protocol == "HTTPS"@ || l.protocol == "TLS"@
                || l.protocol == "TCP"@ || l.protocol == "UDP"@) ==> admitted
        }),
{
    lemma_protocols_differ();
}

/// A policy on namespaces or kinds never admits what the protocol does not.
pub proof fn law_policies_keep_to_the_protocol(
    l: GatewayListenersView,
    gateway_ns: Seq<char>,
    route_ns: Seq<char>,
    kind: Seq<char>,
    namespace_labels: Map<Seq<char>, Map<Seq<char>, Seq<char>>>,
)
    requires
        l.admits(gateway_ns, route_ns, kind, namespace_labels),
    ensures
        (GatewayListenersView { allowed_routes: None, ..l }).admits(
            gateway_ns,
            gateway_ns,
            kind,
            namespace_labels,
        ),
{
}

// ---------------------------------------------------------------------------
// Laws of attachment
// ---------------------------------------------------------------------------

/// One listener takes a reference exactly where the reference leaves section
/// and port open or names those of the listener, a host name is shared, and
/// the policy admits the route. Where it does not, the reason is the last of
/// these that failed.
pub proof fn law_one_listener(l: GatewayListenersView, pr: RouteParentRefView, t: RouteTraits)
    ensures
        ({
            let picked = (pr.section_name matches Some(s) ==> s == l.name) && (
            pr.port matches Some(p) ==> p == l.port);
            let shared = hostname::hostnames_meet(l.hostname, t.hostnames);
            let admitted = l.admits(t.gateway_ns, t.route_ns, t.kind, t.namespace_labels);
            let found = verdict(seq![l], pr, t);
            &&& !picked ==> found == Err::<Seq<Seq<char>>, Rejection>(Rejection::NoMatchingParent)
            &&& picked && !shared ==> found == Err::<Seq<Seq<char>>, Rejection>(
                Rejection::NoMatchingListenerHostname,
            )
            &&& picked && shared && !admitted ==> found == Err::<Seq<Seq<char>>, Rejection>(
                Rejection::NotAllowedByListeners,
            )
            &&& picked && shared && admitted ==> found == Ok::<Seq<Seq<char>>, Rejection>(
                seq![l.name],
            )
        }),
{
    let one = seq![l];
    assert(one.drop_last() =~= Seq::empty());
    assert(one.last() == l);
    assert(one[0] == l);
    lemma_refused_step(one, pr, t);
    assert(taking_listeners(one.drop_last(), pr, t) =~= Seq::empty());
    assert(Seq::<Seq<char>>::empty().push(l.name) =~= seq![l.name]);
}

/// The names that a verdict holds.
pub open spec fn taken_names(r: Result<Seq<Seq<char>>, Rejection>) -> Seq<Seq<char>> {
    match r {
        Ok(names) => names,
        Err(_) => Seq::empty(),
    }
}

proof fn lemma_taking_adds(
    a: Seq<GatewayListenersView>,
    b: Seq<GatewayListenersView>,
    pr: RouteParentRefView,
    t: RouteTraits,
)
    ensures
        taking_listeners(a + b, pr, t) == taking_listeners(a, pr, t) + taking_listeners(b, pr, t),
    decreases b.len(),
{
    if b.len() == 0 {
        assert(a + b =~= a);
        assert(taking_listeners(a, pr, t) + taking_listeners(b, pr, t) =~= taking_listeners(
            a,
            pr,
            t,
        ));
    } else {
        lemma_taking_adds(a, b.drop_last(), pr, t);
        assert((a + b).drop_last() =~= a + b.drop_last());
        assert((a + b).last() == b.last());
        assert(taking_listeners(a + b, pr, t) =~= taking_listeners(a, pr, t) + taking_listeners(
            b,
            pr,
            t,
        ));
    }
}

/// Listeners do not get in each other's way: the names that two lists take are
/// taken together, in order; where none is, the more specific reason stands.
pub proof fn law_listeners_add_up(
    a: Seq<GatewayListenersView>,
    b: Seq<GatewayListenersView>,
    pr: RouteParentRefView,
    t: RouteTraits,
)
    ensures
        ({
            let (x, y, z) = (verdict(a, pr, t), verdict(b, pr, t), verdict(a + b, pr, t));
            &&& taken_names(z) == taken_names(x) + taken_names(y)
            &&& z is Ok <==> x is Ok || y is Ok
            &&& z is Err ==> {
                &&& z->Err_0 == x->Err_0 || z->Err_0 == y->Err_0
                &&& z->Err_0 == Rejection::NotAllowedByListeners <==> (x->Err_0
                    == Rejection::NotAllowedByListeners || y->Err_0
                    == Rejection::NotAllowedByListeners)
                &&& z->Err_0 == Rejection::NoMatchingParent <==> (x->Err_0
                    == Rejection::NoMatchingParent && y->Err_0 == Rejection::NoMatchingParent)
            }
        }),
        verdict(Seq::empty(), pr, t) == Err::<Seq<Seq<char>>, Rejection>(
            Rejection::NoMatchingParent,
        ),
{
    lemma_taking_adds(a, b, pr, t);
    let c = a + b;
    let none = Seq::<Seq<char>>::empty();
    assert forall|i: int| 0 <= i < a.len() implies #[trigger] c[i] == a[i] by {}
    assert forall|i: int| 0 <= i < b.len() implies #[trigger] b[i] == c[a.len() + i] by {}
    if refused_by_policy(a, pr, t) {
        let i = choose|i: int|
            0 <= i < a.len() && {
                &&& (#[trigger] a[i]).picked_by(pr)
                &&& a[i].shares_hostname(t)
                &&& !a[i].admits(t.gateway_ns, t.route_ns, t.kind, t.namespace_labels)
            };
        assert(c[i] == a[i]);
    }
    if refused_by_policy(b, pr, t) {
        let i = choose|i: int|
            0 <= i < b.len() && {
                &&& (#[trigger] b[i]).picked_by(pr)
                &&& b[i].shares_hostname(t)
                &&& !b[i].admits(t.gateway_ns, t.route_ns, t.kind, t.namespace_labels)
            };
        assert(c[a.len() + i] == b[i]);
    }
    if refused_by_policy(c, pr, t) {
        let i = choose|i: int|
            0 <= i < c.len() && {
                &&& (#[trigger] c[i]).picked_by(pr)
                &&& c[i].shares_hostname(t)
                &&& !c[i].admits(t.gateway_ns, t.route_ns, t.kind, t.namespace_labels)
            };
        if i < a.len() {
            assert(a[i] == c[i]);
        } else {
            assert(b[i - a.len()] == c[i]);
        }
    }
    if refused_by_hostname(a, pr, t) {
        let i = choose|i: int|
            0 <= i < a.len() && (#[trigger] a[i]).picked_by(pr) && !a[i].shares_hostname(t);
        assert(c[i] == a[i]);
    }
    if refused_by_hostname(b, pr, t) {
        let i = choose|i: int|
            0 <= i < b.len() && (#[trigger] b[i]).picked_by(pr) && !b[i].shares_hostname(t);
        assert(c[a.len() + i] == b[i]);
    }
    if refused_by_hostname(c, pr, t) {
        let i = choose|i: int|
            0 <= i < c.len() && (#[trigger] c[i]).picked_by(pr) && !c[i].shares_hostname(t);
        if i < a.len() {
            assert(a[i] == c[i]);
        } else {
            assert(b[i - a.len()] == c[i]);
        }
    }
    assert(none + none =~= none);
    assert(taken_names(verdict(a, pr, t)) =~= taking_listeners(a, pr, t));
    assert(taken_names(verdict(b, pr, t)) =~= taking_listeners(b, pr, t));
    assert(taken_names(verdict(c, pr, t)) =~= taking_listeners(c, pr, t));
}

/// The reasons are reported by the names that the Gateway API gives them.
pub proof fn law_rejection_reasons(a: Rejection, b: Rejection)
    ensures
        Rejection::NoMatchingParent.spec_reason() == "NoMatchingParent"@,
        Rejection::NoMatchingListenerHostname.spec_reason() == "NoMatchingListenerHostname"@,
        Rejection::NotAllowedByListeners.spec_reason() == "NotAllowedByListeners"@,
        a.spec_reason() == b.spec_reason() ==> a == b,
{
    reveal_strlit("NoMatchingParent");
    reveal_strlit("NoMatchingListenerHostname");
    reveal_strlit("NotAllowedByListeners");
    assert("NoMatchingParent"@.len() == 16 && "NoMatchingListenerHostname"@.len() == 26
        && "NotAllowedByListeners"@.len() == 21);
}

// ---------------------------------------------------------------------------
// Laws of references
// ---------------------------------------------------------------------------

/// Grants do not work together: what a list of them allows across namespaces,
/// one of them allows alone.
pub proof fn law_one_grant_decides(
    grants: Seq<ReferenceGrantView>,
    from: RefSource,
    to: RefTarget,
)
    requires
        from.namespace != to.namespace,
    ensures
        reference_allowed(grants, from, to) <==> exists|i: int|
            0 <= i < grants.len() && reference_allowed(seq![#[trigger] grants[i]], from, to),
{
    assert forall|i: int| 0 <= i < grants.len() implies (reference_allowed(
        seq![#[trigger] grants[i]],
        from,
        to,
    ) <==> grants[i].permits(from, to)) by {
        assert(seq![grants[i]][0] == grants[i]);
    }
    if reference_allowed(grants, from, to) {
        let i = choose|i: int| 0 <= i < grants.len() && (#[trigger] grants[i]).permits(from, to);
        assert(reference_allowed(seq![grants[i]], from, to));
    }
}

/// What a grant has to say to allow a reference across namespaces: it lives
/// with the target, one entry of it names the source by group, kind and
/// namespace, and one names the target by group, kind and, unless it leaves
/// the name open, name.
pub proof fn law_grant_meaning(grant: ReferenceGrantView, from: RefSource, to: RefTarget)
    requires
        from.namespace != to.namespace,
    ensures
        reference_allowed(seq![grant], from, to) <==> {
            &&& match grant.metadata.namespace {
                Some(ns) => ns == to.namespace,
                None => to.namespace == "default"@,
            }
            &&& grant.spec.from.contains(
                ReferenceGrantFromView {
                    group: from.group,
                    kind: from.kind,
                    namespace: from.namespace,
                },
            )
            &&& grant.spec.to.contains(
                ReferenceGrantToView { group: to.group, kind: to.kind, name: None },
            ) || grant.spec.to.contains(
                ReferenceGrantToView { group: to.group, kind: to.kind, name: Some(to.name) },
            )
        },
{
    assert(seq![grant][0] == grant);
    assert(reference_allowed(seq![grant], from, to) <==> grant.permits(from, to));
    let f = ReferenceGrantFromView {
        group: from.group,
        kind: from.kind,
        namespace: from.namespace,
    };
    let any = ReferenceGrantToView { group: to.group, kind: to.kind, name: None };
    let named = ReferenceGrantToView { group: to.group, kind: to.kind, name: Some(to.name) };
    if grant.spec.from.contains(f) {
        let i = choose|i: int| 0 <= i < grant.spec.from.len() && grant.spec.from[i] == f;
        assert(grant.spec.from[i].is(from.group, from.kind, from.namespace));
    }
    if grant.spec.to.contains(any) {
        let i = choose|i: int| 0 <= i < grant.spec.to.len() && grant.spec.to[i] == any;
        assert(grant.spec.to[i].opens(to.group, to.kind, to.name));
    }
    if grant.spec.to.contains(named) {
        let i = choose|i: int| 0 <= i < grant.spec.to.len() && grant.spec.to[i] == named;
        assert(grant.spec.to[i].opens(to.group, to.kind, to.name));
    }
    if grant.permits(from, to) {
        let i = choose|i: int|
            0 <= i < grant.spec.from.len() && (#[trigger] grant.spec.from[i]).is(
                from.group,
                from.kind,
                from.namespace,
            );
        assert(grant.spec.from[i] == f);
        let k = choose|k: int|
            0 <= k < grant.spec.to.len() && (#[trigger] grant.spec.to[k]).opens(
                to.group,
                to.kind,
                to.name,
            );
        assert(grant.spec.to[k] == any || grant.spec.to[k] == named);
    }
}

} // verus!
