//! Certificates of a Gateway, and the conditions of the Gateway and its
//! listeners.
use crate::dup::Dup;
use crate::json::{Json, JsonView};
use crate::kubernetes::addresses::NETWORK_ADDRESS_TYPE;
use crate::kubernetes::converters;
use crate::kubernetes::converters::{protocol_of, CertData, CertDataView};
use crate::kubernetes::parent_ref::GATEWAY_GROUP;
use crate::kubernetes::reconciler::{RefFault, RefFaultView};
use crate::kubernetes::reference_grants;
use crate::kubernetes::reference_grants::{is_reference_allowed, RefSource, RefTarget};
use crate::kubernetes::resources::{
    Gateway, GatewayAddressesView, GatewayListeners, GatewayListenersAllowedRoutesKinds,
    GatewayListenersAllowedRoutesKindsView, GatewayListenersTlsCertificateRefs,
    GatewayListenersTlsCertificateRefsView, GatewayListenersView, GatewayView, ReferenceGrant,
    ReferenceGrantView, Secret, SecretView,
};
use crate::kubernetes::status;
use crate::kubernetes::status::{
    route_kind_json, supported_kinds_for_protocol, GatewayCondition, GatewayConditionView,
    ListenerStatus, ListenerStatusView,
};
use crate::lists;
use crate::lists::{filter_map_vec, flat_map_vec, map_vec};
use crate::table;
use crate::table::{table_of, Table};
use crate::text;
use crate::text::{opt_or, str_eq};
use vstd::prelude::*;
use vstd::utf8::*;

verus! {

// ---------------------------------------------------------------------------
// Certificates
// ---------------------------------------------------------------------------

/// The Secrets of the cluster by (name, namespace).
pub type Secrets = Table<(String, String), Secret>;

/// What a [`Secrets`] denotes.
pub type SecretsView = Map<(Seq<char>, Seq<char>), SecretView>;

/// Whether `needle` occurs in `hay`.
pub open spec fn occurs(needle: Seq<u8>, hay: Seq<u8>) -> bool {
    exists|i: int|
        0 <= i <= hay.len() - needle.len() && #[trigger] hay.subrange(i, i + needle.len())
            == needle
}

/// Whether a certificate has the marks of the PEM format.
pub open spec fn pem_certificate(cert: Seq<u8>) -> bool {
    occurs(encode_utf8("BEGIN CERTIFICATE"@), cert)
}

/// Whether a private key has the marks of the PEM format.
pub open spec fn pem_private_key(key: Seq<u8>) -> bool {
    ||| occurs(encode_utf8("BEGIN PRIVATE KEY"@), key)
    ||| occurs(encode_utf8("BEGIN RSA PRIVATE KEY"@), key)
    ||| occurs(encode_utf8("BEGIN EC PRIVATE KEY"@), key)
}

fn bytes_at(hay: &Vec<u8>, at: usize, needle: &[u8]) -> (r: bool)
    requires
        at + needle@.len() <= hay@.len(),
    ensures
        r == (hay@.subrange(at as int, at + needle@.len()) == needle@),
{
    let mut i: usize = 0;
    let total: usize = hay.len();
    let ghost w = hay@.subrange(at as int, at + needle@.len());
    while i < needle.len()
        invariant
            i <= needle@.len(),
            at + needle@.len() <= hay@.len() == total,
            w == hay@.subrange(at as int, at + needle@.len()),
            forall|j: int| 0 <= j < i ==> w[j] == needle@[j],
        decreases needle.len() - i,
    {
        assert(w[i as int] == hay@[at + i]);
        if hay[at + i] != needle[i] {
            return false;
        }
        i += 1;
    }
    assert(w =~= needle@);
    true
}

fn bytes_contain(hay: &Vec<u8>, needle: &str) -> (r: bool)
    ensures
        r == occurs(encode_utf8(needle@), hay@),
{
    let n = needle.as_bytes();
    if n.len() > hay.len() {
        return false;
    }
    let last: usize = hay.len() - n.len();
    let mut i: usize = 0;
    while i <= last
        invariant
            n@ == encode_utf8(needle@),
            last == hay@.len() - n@.len(),
            i <= last + 1,
            forall|j: int| 0 <= j < i ==> #[trigger] hay@.subrange(j, j + n@.len()) != n@,
        decreases last + 1 - i,
    {
        if bytes_at(hay, i, n) {
            return true;
        }
        if i == last {
            return false;
        }
        i += 1;
    }
    false
}

impl SecretView {
    /// The certificate and key that the Secret holds, if both are there and
    /// look like PEM.
    pub open spec fn key_pair(self) -> Option<(Seq<u8>, Seq<u8>)> {
        match self.data {
            Some(d) => if d.dom().contains("tls.crt"@) && d.dom().contains("tls.key"@)
                && pem_certificate(d["tls.crt"@]) && pem_private_key(d["tls.key"@]) {
                Some((d["tls.crt"@], d["tls.key"@]))
            } else {
                None
            },
            None => None,
        }
    }
}

impl GatewayListenersTlsCertificateRefsView {
    /// Whether a Gateway in `gw_ns` may use the Secret that the reference
    /// names.
    pub open spec fn permitted(self, gw_ns: Seq<char>, grants: Seq<ReferenceGrantView>) -> bool {
        reference_grants::reference_allowed(
            grants,
            RefSource { group: GATEWAY_GROUP@, kind: "Gateway"@, namespace: gw_ns },
            RefTarget {
                group: ""@,
                kind: "Secret"@,
                namespace: text::or_text(self.namespace, gw_ns),
                name: self.name,
            },
        )
    }

    /// The certificate and key of the reference, if it may be used and there
    /// are any.
    pub open spec fn resolved(
        self,
        gw_ns: Seq<char>,
        grants: Seq<ReferenceGrantView>,
        secrets: SecretsView,
    ) -> Option<((Seq<char>, Seq<char>), (Seq<u8>, Seq<u8>))> {
        let key = self.secret_key(gw_ns);
        if self.permitted(gw_ns, grants) && secrets.dom().contains(key) {
            match secrets[key].key_pair() {
                Some(pair) => Some((key, pair)),
                None => None,
            }
        } else {
            None
        }
    }
}

impl GatewayListenersView {
    /// The certificates that the listener names.
    pub open spec fn cert_refs(self) -> Seq<GatewayListenersTlsCertificateRefsView> {
        match self.tls {
            Some(t) => match t.certificate_refs {
                Some(refs) => refs,
                None => Seq::empty(),
            },
            None => Seq::empty(),
        }
    }
}

/// The certificates of a Gateway in `gw_ns`.
pub open spec fn gateway_certs(
    gateway: GatewayView,
    gw_ns: Seq<char>,
    grants: Seq<ReferenceGrantView>,
    secrets: SecretsView,
) -> CertDataView {
    table::insert_all(
        gateway.spec.listeners.flat_map(|l: GatewayListenersView| l.cert_refs()).filter_map(
            |r: GatewayListenersTlsCertificateRefsView| r.resolved(gw_ns, grants, secrets),
        ),
    )
}

fn cert_ref_permitted(
    r: &GatewayListenersTlsCertificateRefs,
    gw_ns: &str,
    grants: &Vec<ReferenceGrant>,
) -> (ok: bool)
    ensures
        ok == r.deep_view().permitted(gw_ns@, grants.deep_view()),
{
    is_reference_allowed(
        grants,
        GATEWAY_GROUP,
        "Gateway",
        gw_ns,
        "",
        "Secret",
        opt_or(&r.namespace, gw_ns),
        r.name.as_str(),
    )
}

fn secret_key_pair(secret: &Secret) -> (r: Option<(Vec<u8>, Vec<u8>)>)
    ensures
        r.deep_view() == secret.deep_view().key_pair(),
{
    let data = match &secret.data {
        Some(d) => d,
        None => return None,
    };
    let crt = "tls.crt".to_owned();
    let key = "tls.key".to_owned();
    match (data.get(&crt), data.get(&key)) {
        (Some(c), Some(k)) => {
            assert(c.deep_view() =~= c@);
            assert(k.deep_view() =~= k@);
            if bytes_contain(c, "BEGIN CERTIFICATE") && (bytes_contain(k, "BEGIN PRIVATE KEY")
                || bytes_contain(k, "BEGIN RSA PRIVATE KEY") || bytes_contain(
                k,
                "BEGIN EC PRIVATE KEY",
            )) {
                Some((c.dup(), k.dup()))
            } else {
                None
            }
        },
        _ => None,
    }
}

fn resolve_cert_ref(
    r: &GatewayListenersTlsCertificateRefs,
    gw_ns: &str,
    grants: &Vec<ReferenceGrant>,
    secrets: &Secrets,
) -> (o: Option<((String, String), (Vec<u8>, Vec<u8>))>)
    ensures
        o.deep_view() == r.deep_view().resolved(
            gw_ns@,
            grants.deep_view(),
            secrets.deep_view(),
        ),
{
    if !cert_ref_permitted(r, gw_ns, grants) {
        return None;
    }
    let key = (r.name.clone(), opt_or(&r.namespace, gw_ns).to_owned());
    match secrets.get(&key) {
        Some(secret) => match secret_key_pair(secret) {
            Some(pair) => Some((key, pair)),
            None => None,
        },
        None => None,
    }
}

fn listener_certs(
    l: &GatewayListeners,
    gw_ns: &str,
    grants: &Vec<ReferenceGrant>,
    secrets: &Secrets,
) -> (r: Vec<((String, String), (Vec<u8>, Vec<u8>))>)
    ensures
        r.deep_view() == l.deep_view().cert_refs().filter_map(
            |r: GatewayListenersTlsCertificateRefsView|
                r.resolved(gw_ns@, grants.deep_view(), secrets.deep_view()),
        ),
{
    let ghost g = |r: GatewayListenersTlsCertificateRefsView|
        r.resolved(gw_ns@, grants.deep_view(), secrets.deep_view());
    if let Some(tls) = &l.tls {
        if let Some(refs) = &tls.certificate_refs {
            return filter_map_vec(
                refs,
                |r: &GatewayListenersTlsCertificateRefs| -> (o: Option<
                    ((String, String), (Vec<u8>, Vec<u8>)),
                >)
                    ensures
                        o.deep_view() == g(r.deep_view())
                    { resolve_cert_ref(r, gw_ns, grants, secrets) },
                Ghost(g),
            );
        }
    }
    let none: Vec<((String, String), (Vec<u8>, Vec<u8>))> = Vec::new();
    assert(none.deep_view() =~= l.deep_view().cert_refs().filter_map(g));
    none
}

proof fn lemma_filter_map_concat<A, B>(a: Seq<A>, b: Seq<A>, f: spec_fn(A) -> Option<B>)
    ensures
        (a + b).filter_map(f) == a.filter_map(f) + b.filter_map(f),
    decreases b.len(),
{
    if b.len() == 0 {
        assert(a + b =~= a);
        assert(a.filter_map(f) + b.filter_map(f) =~= a.filter_map(f));
    } else {
        assert((a + b).drop_last() =~= a + b.drop_last());
        lemma_filter_map_concat(a, b.drop_last(), f);
        assert((a + b).filter_map(f) =~= a.filter_map(f) + b.filter_map(f));
    }
}

proof fn lemma_flat_then_filter<A, B, C>(
    s: Seq<A>,
    f: spec_fn(A) -> Seq<B>,
    g: spec_fn(B) -> Option<C>,
    h: spec_fn(A) -> Seq<C>,
)
    requires
        forall|x: A| #[trigger] h(x) == f(x).filter_map(g),
    ensures
        s.flat_map(f).filter_map(g) == s.flat_map(h),
    decreases s.len(),
{
    if s.len() == 0 {
        reveal_with_fuel(Seq::flatten, 2);
        assert(s.map_values(f) =~= Seq::empty());
        assert(s.map_values(h) =~= Seq::empty());
        assert(s.flat_map(f) =~= Seq::empty());
        assert(s.flat_map(f).filter_map(g) =~= s.flat_map(h));
    } else {
        let init = s.drop_last();
        let x = s.last();
        assert(init.push(x) =~= s);
        init.lemma_flat_map_push(f, x);
        init.lemma_flat_map_push(h, x);
        lemma_flat_then_filter(init, f, g, h);
        lemma_filter_map_concat(init.flat_map(f), f(x), g);
        assert(s.flat_map(f) =~= init.flat_map(f) + f(x));
        assert(s.flat_map(h) =~= init.flat_map(h) + h(x));
    }
}

/// The certificates of a Gateway in `gw_ns`: those that its listeners name,
/// that it may use, and whose Secret holds a certificate and a key in PEM.
pub fn resolve_gateway_certs(
    gateway: &Gateway,
    gw_ns: &str,
    reference_grants: &Vec<ReferenceGrant>,
    secrets: &Secrets,
) -> (r: CertData)
    ensures
        r.deep_view() == gateway_certs(
            gateway.deep_view(),
            gw_ns@,
            reference_grants.deep_view(),
            secrets.deep_view(),
        ),
{
    let ghost g = |r: GatewayListenersTlsCertificateRefsView|
        r.resolved(gw_ns@, reference_grants.deep_view(), secrets.deep_view());
    let ghost h = |l: GatewayListenersView| l.cert_refs().filter_map(g);
    let entries = flat_map_vec(
        &gateway.spec.listeners,
        |l: &GatewayListeners| -> (o: Vec<((String, String), (Vec<u8>, Vec<u8>))>)
            ensures
                o.deep_view() == h(l.deep_view())
            { listener_certs(l, gw_ns, reference_grants, secrets) },
        Ghost(h),
    );
    proof {
        let f = |l: GatewayListenersView| l.cert_refs();
        lemma_flat_then_filter(gateway.deep_view().spec.listeners, f, g, h);
    }
    table_of(&entries)
}

// ---------------------------------------------------------------------------
// Listeners
// ---------------------------------------------------------------------------

/// Whether two listeners claim the port for different protocols.
pub open spec fn conflicted(listeners: Seq<GatewayListenersView>, port: i32) -> bool {
    exists|i: int, j: int|
        #![trigger listeners[i], listeners[j]]
        0 <= i < listeners.len() && 0 <= j < listeners.len() && listeners[i].port == port
            && listeners[j].port == port && listeners[i].protocol != listeners[j].protocol
}

impl GatewayListenersTlsCertificateRefsView {
    /// What is wrong with the certificate reference of a Gateway in `gw_ns`:
    /// it names something other than a Secret, it crosses namespaces without a
    /// grant, or its Secret gave no certificate.
    pub open spec fn fault(
        self,
        gw_ns: Seq<char>,
        certs: CertDataView,
        grants: Seq<ReferenceGrantView>,
    ) -> Option<RefFaultView> {
        let group = text::or_text(self.group, ""@);
        let kind = text::or_text(self.kind, "Secret"@);
        let ns = text::or_text(self.namespace, gw_ns);
        if group.len() > 0 || kind != "Secret"@ {
            Some(
                RefFaultView {
                    reason: "InvalidCertificateRef"@,
                    message: "Unsupported certificateRef group/kind: "@ + group + "/"@ + kind,
                },
            )
        } else if !self.permitted(gw_ns, grants) {
            Some(
                RefFaultView {
                    reason: "RefNotPermitted"@,
                    message: "Cross-namespace certificate ref "@ + ns + "/"@ + self.name
                        + " not allowed by ReferenceGrant"@,
                },
            )
        } else if !certs.dom().contains(self.secret_key(gw_ns)) {
            Some(
                RefFaultView {
                    reason: "InvalidCertificateRef"@,
                    message: "Secret "@ + ns + "/"@ + self.name
                        + " not found or missing tls.crt/tls.key"@,
                },
            )
        } else {
            None
        }
    }
}

/// Whether a listed route kind is one that listeners can admit.
pub open spec fn known_kind(k: GatewayListenersAllowedRoutesKindsView) -> bool {
    &&& text::or_text(k.group, GATEWAY_GROUP@) == GATEWAY_GROUP@
    &&& k.kind == "HTTPRoute"@ || k.kind == "TCPRoute"@ || k.kind == "TLSRoute"@ || k.kind
        == "UDPRoute"@ || k.kind == "GRPCRoute"@
}

impl GatewayListenersView {
    /// The route kinds that the listener lists, if it does.
    pub open spec fn listed_kinds(self) -> Option<Seq<GatewayListenersAllowedRoutesKindsView>> {
        match self.allowed_routes {
            Some(ar) => ar.kinds,
            None => None,
        }
    }

    /// The route kinds that the listener serves: the known ones of its list
    /// or, without a list, those of its protocol.
    pub open spec fn supported_kinds(self) -> Seq<JsonView> {
        match self.listed_kinds() {
            Some(kinds) => kinds.filter_map(
                |k: GatewayListenersAllowedRoutesKindsView|
                    if known_kind(k) {
                        Some(status::kind_json(k.kind))
                    } else {
                        None
                    },
            ),
            None => status::protocol_kinds(self.protocol),
        }
    }

    /// Whether the listener lists a route kind that is not known.
    pub open spec fn lists_unknown_kind(self) -> bool {
        match self.listed_kinds() {
            Some(kinds) => exists|i: int|
                0 <= i < kinds.len() && !known_kind(#[trigger] kinds[i]),
            None => false,
        }
    }

    /// What is wrong with the TLS section of the listener, in order.
    pub open spec fn tls_faults(
        self,
        gw_ns: Seq<char>,
        certs: CertDataView,
        grants: Seq<ReferenceGrantView>,
    ) -> Seq<RefFaultView> {
        if self.tls is Some {
            self.cert_refs().filter_map(
                |r: GatewayListenersTlsCertificateRefsView| r.fault(gw_ns, certs, grants),
            )
        } else if self.protocol == "HTTPS"@ || self.protocol == "TLS"@ {
            seq![
                RefFaultView {
                    reason: "InvalidCertificateRef"@,
                    message: "HTTPS/TLS listener requires TLS configuration"@,
                },
            ]
        } else {
            Seq::empty()
        }
    }

    /// The fault that the listener reports, if any: an unknown route kind
    /// before the last fault of the TLS section.
    pub open spec fn reported_fault(
        self,
        gw_ns: Seq<char>,
        certs: CertDataView,
        grants: Seq<ReferenceGrantView>,
    ) -> Option<RefFaultView> {
        let faults = self.tls_faults(gw_ns, certs, grants);
        if self.lists_unknown_kind() {
            Some(
                RefFaultView {
                    reason: "InvalidRouteKinds"@,
                    message: "One or more route kinds in allowedRoutes are not supported"@,
                },
            )
        } else if faults.len() > 0 {
            Some(faults.last())
        } else {
            None
        }
    }
}

/// The state of a listener.
pub open spec fn listener_status(
    l: GatewayListenersView,
    listeners: Seq<GatewayListenersView>,
    gw_ns: Seq<char>,
    certs: CertDataView,
    grants: Seq<ReferenceGrantView>,
) -> ListenerStatusView {
    let conflict = conflicted(listeners, l.port);
    let fault = l.reported_fault(gw_ns, certs, grants);
    ListenerStatusView {
        accepted: !conflict,
        accepted_reason: if conflict {
            "ProtocolConflict"@
        } else {
            "Accepted"@
        },
        accepted_message: if conflict {
            "Listener port conflicts with another listener using a different protocol"@
        } else {
            "Listener accepted"@
        },
        programmed: !conflict && fault is None,
        programmed_reason: if !conflict && fault is None {
            "Programmed"@
        } else {
            "Invalid"@
        },
        programmed_message: if conflict {
            "Listener not programmed due to acceptance failure"@
        } else if fault is Some {
            "Listener has unresolved references"@
        } else {
            "Programmed"@
        },
        resolved_refs: fault is None,
        resolved_refs_reason: match fault {
            Some(f) => f.reason,
            None => "ResolvedRefs"@,
        },
        resolved_refs_message: match fault {
            Some(f) => f.message,
            None => "All references resolved"@,
        },
        conflicted: conflict,
        conflicted_reason: if conflict {
            "ProtocolConflict"@
        } else {
            "NoConflicts"@
        },
        conflicted_message: if conflict {
            "Listener port shared with another listener using different protocol"@
        } else {
            "No conflicts detected"@
        },
        supported_kinds: l.supported_kinds(),
    }
}

/// The state of each listener by its name.
pub open spec fn listener_statuses(
    listeners: Seq<GatewayListenersView>,
    gw_ns: Seq<char>,
    certs: CertDataView,
    grants: Seq<ReferenceGrantView>,
) -> Map<Seq<char>, ListenerStatusView> {
    table::insert_all(
        listeners.map_values(
            |l: GatewayListenersView|
                (l.name, listener_status(l, listeners, gw_ns, certs, grants)),
        ),
    )
}

fn port_conflicted(listeners: &Vec<GatewayListeners>, port: i32) -> (r: bool)
    ensures
        r == conflicted(listeners.deep_view(), port),
{
    let ghost s = listeners.deep_view();
    let mut first: Option<usize> = None;
    let mut i: usize = 0;
    while i < listeners.len()
        invariant
            i <= listeners.len(),
            s == listeners.deep_view(),
            match first {
                Some(f) => {
                    &&& f < i
                    &&& s[f as int].port == port
                    &&& forall|j: int|
                        0 <= j < i && (#[trigger] s[j]).port == port ==> s[j].protocol
                            == s[f as int].protocol
                },
                None => forall|j: int| 0 <= j < i ==> (#[trigger] s[j]).port != port,
            },
        decreases listeners.len() - i,
    {
        assert(s[i as int] == listeners@[i as int].deep_view());
        if listeners[i].port == port {
            match first {
                Some(f) => {
                    assert(s[f as int] == listeners@[f as int].deep_view());
                    if !str_eq(listeners[i].protocol.as_str(), listeners[f].protocol.as_str()) {
                        assert(conflicted(s, port));
                        return true;
                    }
                },
                None => {
                    first = Some(i);
                },
            }
        }
        i += 1;
    }
    false
}

fn cert_ref_fault(
    r: &GatewayListenersTlsCertificateRefs,
    gw_ns: &str,
    cert_data: &CertData,
    grants: &Vec<ReferenceGrant>,
) -> (o: Option<RefFault>)
    ensures
        o.deep_view() == r.deep_view().fault(gw_ns@, cert_data.deep_view(), grants.deep_view()),
{
    let group = opt_or(&r.group, "");
    let kind = opt_or(&r.kind, "Secret");
    let ns = opt_or(&r.namespace, gw_ns);
    if !group.is_empty() || !str_eq(kind, "Secret") {
        let mut message = "Unsupported certificateRef group/kind: ".to_owned();
        message.append(group);
        message.append("/");
        message.append(kind);
        return Some(RefFault { reason: "InvalidCertificateRef", message });
    }
    if !cert_ref_permitted(r, gw_ns, grants) {
        let mut message = "Cross-namespace certificate ref ".to_owned();
        message.append(ns);
        message.append("/");
        message.append(r.name.as_str());
        message.append(" not allowed by ReferenceGrant");
        return Some(RefFault { reason: "RefNotPermitted", message });
    }
    let key = (r.name.clone(), ns.to_owned());
    if !cert_data.contains_key(&key) {
        let mut message = "Secret ".to_owned();
        message.append(ns);
        message.append("/");
        message.append(r.name.as_str());
        message.append(" not found or missing tls.crt/tls.key");
        return Some(RefFault { reason: "InvalidCertificateRef", message });
    }
    None
}

fn listener_tls_faults(
    l: &GatewayListeners,
    gw_ns: &str,
    cert_data: &CertData,
    grants: &Vec<ReferenceGrant>,
) -> (r: Vec<RefFault>)
    ensures
        r.deep_view() == l.deep_view().tls_faults(
            gw_ns@,
            cert_data.deep_view(),
            grants.deep_view(),
        ),
{
    let ghost g = |r: GatewayListenersTlsCertificateRefsView|
        r.fault(gw_ns@, cert_data.deep_view(), grants.deep_view());
    let ghost want = l.deep_view().tls_faults(gw_ns@, cert_data.deep_view(), grants.deep_view());
    match &l.tls {
        Some(tls) => {
            if let Some(refs) = &tls.certificate_refs {
                let r = filter_map_vec(
                    refs,
                    |r: &GatewayListenersTlsCertificateRefs| -> (o: Option<RefFault>)
                        ensures
                            o.deep_view() == g(r.deep_view())
                        { cert_ref_fault(r, gw_ns, cert_data, grants) },
                    Ghost(g),
                );
                assert(l.deep_view().cert_refs() == refs.deep_view());
                return r;
            }
        },
        None => {
            if str_eq(l.protocol.as_str(), "HTTPS") || str_eq(l.protocol.as_str(), "TLS") {
                let r = vec![
                    RefFault {
                        reason: "InvalidCertificateRef",
                        message: "HTTPS/TLS listener requires TLS configuration".to_owned(),
                    },
                ];
                assert(r.deep_view() =~= want);
                return r;
            }
        },
    }
    let none: Vec<RefFault> = Vec::new();
    assert(none.deep_view() =~= want);
    none
}

fn kind_is_known(k: &GatewayListenersAllowedRoutesKinds) -> (r: bool)
    ensures
        r == known_kind(k.deep_view()),
{
    let kind = k.kind.as_str();
    str_eq(opt_or(&k.group, GATEWAY_GROUP), GATEWAY_GROUP) && (str_eq(kind, "HTTPRoute") || str_eq(
        kind,
        "TCPRoute",
    ) || str_eq(kind, "TLSRoute") || str_eq(kind, "UDPRoute") || str_eq(kind, "GRPCRoute"))
}

/// The route kinds that a listener serves, and whether it lists one that is
/// not known.
fn listener_kinds(l: &GatewayListeners) -> (r: (Vec<Json>, bool))
    ensures
        r.0.deep_view() == l.deep_view().supported_kinds(),
        r.1 == l.deep_view().lists_unknown_kind(),
{
    if let Some(ar) = &l.allowed_routes {
        if let Some(kinds) = &ar.kinds {
            let ghost g = |k: GatewayListenersAllowedRoutesKindsView|
                if known_kind(k) {
                    Some(status::kind_json(k.kind))
                } else {
                    None
                };
            let supported = filter_map_vec(
                kinds,
                |k: &GatewayListenersAllowedRoutesKinds| -> (o: Option<Json>)
                    ensures
                        o.deep_view() == g(k.deep_view())
                    {
                        if kind_is_known(k) {
                            Some(route_kind_json(k.kind.as_str()))
                        } else {
                            None
                        }
                    },
                Ghost(g),
            );
            let ghost s = kinds.deep_view();
            let mut unknown = false;
            let mut i: usize = 0;
            while i < kinds.len()
                invariant
                    i <= kinds.len(),
                    s == kinds.deep_view(),
                    unknown == exists|j: int| 0 <= j < i && !known_kind(#[trigger] s[j]),
                decreases kinds.len() - i,
            {
                assert(s[i as int] == kinds@[i as int].deep_view());
                if !kind_is_known(&kinds[i]) {
                    unknown = true;
                }
                i += 1;
            }
            proof {
                let listed = l.deep_view().listed_kinds();
                assert(listed == Some(s));
                if unknown {
                    let j = choose|j: int| 0 <= j < s.len() && !known_kind(#[trigger] s[j]);
                    assert(!known_kind(listed->0[j]));
                }
            }
            return (supported, unknown);
        }
    }
    (supported_kinds_for_protocol(l.protocol.as_str()), false)
}

fn validate_listener(
    l: &GatewayListeners,
    listeners: &Vec<GatewayListeners>,
    gw_ns: &str,
    cert_data: &CertData,
    grants: &Vec<ReferenceGrant>,
) -> (r: ListenerStatus)
    ensures
        r.deep_view() == listener_status(
            l.deep_view(),
            listeners.deep_view(),
            gw_ns@,
            cert_data.deep_view(),
            grants.deep_view(),
        ),
{
    let mut ls = ListenerStatus::default();
    if port_conflicted(listeners, l.port) {
        ls.accepted = false;
        ls.accepted_reason = "ProtocolConflict".to_owned();
        ls.accepted_message =
        "Listener port conflicts with another listener using a different protocol".to_owned();
        ls.conflicted = true;
        ls.conflicted_reason = "ProtocolConflict".to_owned();
        ls.conflicted_message =
        "Listener port shared with another listener using different protocol".to_owned();
    } else {
        ls.accepted = true;
        ls.accepted_reason = "Accepted".to_owned();
        ls.accepted_message = "Listener accepted".to_owned();
    }
    let faults = listener_tls_faults(l, gw_ns, cert_data, grants);
    let (supported, unknown_kind) = listener_kinds(l);
    ls.supported_kinds = supported;
    if unknown_kind {
        ls.resolved_refs_reason = "InvalidRouteKinds".to_owned();
        ls.resolved_refs_message =
        "One or more route kinds in allowedRoutes are not supported".to_owned();
    } else if faults.len() > 0 {
        let last = &faults[faults.len() - 1];
        assert(faults.deep_view().last() == last.deep_view());
        ls.resolved_refs_reason = last.reason.to_owned();
        ls.resolved_refs_message = last.message.clone();
    } else {
        ls.resolved_refs = true;
        ls.resolved_refs_reason = "ResolvedRefs".to_owned();
        ls.resolved_refs_message = "All references resolved".to_owned();
    }
    if ls.accepted && ls.resolved_refs {
        ls.programmed = true;
        ls.programmed_reason = "Programmed".to_owned();
        ls.programmed_message = "Programmed".to_owned();
    } else {
        ls.programmed = false;
        ls.programmed_reason = "Invalid".to_owned();
        ls.programmed_message = if !ls.accepted {
            "Listener not programmed due to acceptance failure".to_owned()
        } else {
            "Listener has unresolved references".to_owned()
        };
    }
    ls
}

// ---------------------------------------------------------------------------
// The Gateway
// ---------------------------------------------------------------------------

/// The first listener with a protocol that the data plane does not speak.
pub open spec fn unsupported_listener(listeners: Seq<GatewayListenersView>) -> Option<
    GatewayListenersView,
>
    decreases listeners.len(),
{
    if listeners.len() == 0 {
        None
    } else if converters::protocol_named(listeners.first().protocol) is None {
        Some(listeners.first())
    } else {
        unsupported_listener(listeners.drop_first())
    }
}

/// The type of an address; an IP address unless it says otherwise.
pub open spec fn address_type(a: GatewayAddressesView) -> Seq<char> {
    text::or_text(a.type_, "IPAddress"@)
}

/// Whether an address type is supported.
pub open spec fn supported_address_type(t: Seq<char>) -> bool {
    t == "IPAddress"@ || t == "Hostname"@ || t == NETWORK_ADDRESS_TYPE@
}

/// The first address type that is not supported.
pub open spec fn unsupported_address(addrs: Seq<GatewayAddressesView>) -> Option<Seq<char>>
    decreases addrs.len(),
{
    if addrs.len() == 0 {
        None
    } else if !supported_address_type(address_type(addrs.first())) {
        Some(address_type(addrs.first()))
    } else {
        unsupported_address(addrs.drop_first())
    }
}

/// Whether there are listeners and all of them are rejected.
pub open spec fn all_rejected(statuses: Map<Seq<char>, ListenerStatusView>) -> bool {
    &&& exists|k: Seq<char>| #[trigger] statuses.dom().contains(k)
    &&& forall|k: Seq<char>| #[trigger] statuses.dom().contains(k) ==> !statuses[k].accepted
}

/// Whether a Gateway is accepted, and why not: a protocol that the data plane
/// does not speak, an address type that is not supported, or no listener that
/// could be accepted, in this order.
pub open spec fn gateway_condition(
    gateway: GatewayView,
    statuses: Map<Seq<char>, ListenerStatusView>,
) -> GatewayConditionView {
    let addrs = match gateway.spec.addresses {
        Some(a) => a,
        None => Seq::empty(),
    };
    match unsupported_listener(gateway.spec.listeners) {
        Some(l) => GatewayConditionView {
            ok: false,
            reason: "InvalidParameters"@,
            message: "Listener '"@ + l.name + "' uses unsupported protocol '"@ + l.protocol
                + "'"@,
        },
        None => match unsupported_address(addrs) {
            Some(t) => GatewayConditionView {
                ok: false,
                reason: "UnsupportedAddress"@,
                message: "Unsupported address type '"@ + t + "' in spec.addresses"@,
            },
            None => if all_rejected(statuses) {
                GatewayConditionView {
                    ok: false,
                    reason: "InvalidListeners"@,
                    message: "All listeners are rejected due to conflicts or errors"@,
                }
            } else {
                GatewayConditionView {
                    ok: true,
                    reason: "Accepted"@,
                    message: "Gateway accepted by portail controller"@,
                }
            },
        },
    }
}

fn find_unsupported_listener(listeners: &Vec<GatewayListeners>) -> (r: Option<usize>)
    ensures
        match r {
            Some(i) => i < listeners@.len() && unsupported_listener(listeners.deep_view()) == Some(
                listeners.deep_view()[i as int],
            ),
            None => unsupported_listener(listeners.deep_view()) is None,
        },
{
    let ghost s = listeners.deep_view();
    let mut i: usize = 0;
    assert(s.skip(0) =~= s);
    while i < listeners.len()
        invariant
            i <= listeners.len(),
            s == listeners.deep_view(),
            unsupported_listener(s) == unsupported_listener(s.skip(i as int)),
        decreases listeners.len() - i,
    {
        proof {
            assert(s.skip(i as int).first() == listeners@[i as int].deep_view());
            assert(s.skip(i as int).drop_first() =~= s.skip(i + 1));
        }
        if protocol_of(listeners[i].protocol.as_str()).is_none() {
            return Some(i);
        }
        i += 1;
    }
    None
}

fn find_unsupported_address(gateway: &Gateway) -> (r: Option<String>)
    ensures
        r.deep_view() == unsupported_address(
            match gateway.deep_view().spec.addresses {
                Some(a) => a,
                None => Seq::empty(),
            },
        ),
{
    let addrs = match &gateway.spec.addresses {
        Some(a) => a,
        None => return None,
    };
    let ghost s = addrs.deep_view();
    let mut i: usize = 0;
    assert(s.skip(0) =~= s);
    while i < addrs.len()
        invariant
            i <= addrs.len(),
            s == addrs.deep_view(),
            gateway.deep_view().spec.addresses == Some(s),
            unsupported_address(s) == unsupported_address(s.skip(i as int)),
        decreases addrs.len() - i,
    {
        let t = opt_or(&addrs[i].type_, "IPAddress");
        proof {
            assert(s.skip(i as int).first() == addrs@[i as int].deep_view());
            assert(s.skip(i as int).drop_first() =~= s.skip(i + 1));
        }
        if !(str_eq(t, "IPAddress") || str_eq(t, "Hostname") || str_eq(t, NETWORK_ADDRESS_TYPE)) {
            return Some(t.to_owned());
        }
        i += 1;
    }
    None
}

fn statuses_all_rejected(statuses: &Table<String, ListenerStatus>) -> (r: bool)
    requires
        statuses.keys_unique(),
    ensures
        r == all_rejected(statuses.deep_view()),
{
    let ghost e = statuses.entries.deep_view();
    let ghost m = statuses.deep_view();
    if statuses.entries.len() == 0 {
        proof {
            if all_rejected(m) {
                let k = choose|k: Seq<char>| #[trigger] m.dom().contains(k);
                table::lemma_entries_dom(e, k);
            }
        }
        return false;
    }
    let mut i: usize = 0;
    while i < statuses.entries.len()
        invariant
            i <= statuses.entries.len(),
            e == statuses.entries.deep_view(),
            m == statuses.deep_view(),
            statuses.keys_unique(),
            forall|j: int| 0 <= j < i ==> !(#[trigger] e[j]).1.accepted,
        decreases statuses.entries.len() - i,
    {
        assert(e[i as int] == statuses.entries@[i as int].deep_view());
        if statuses.entries[i].1.accepted {
            proof {
                table::lemma_entries_first(e, i as int);
                assert(m.dom().contains(e[i as int].0));
            }
            return false;
        }
        i += 1;
    }
    proof {
        table::lemma_entries_dom(e, e[0].0);
        assert(m.dom().contains(e[0].0));
        assert forall|k: Seq<char>| #[trigger] m.dom().contains(k) implies !m[k].accepted by {
            table::lemma_entries_dom(e, k);
            let j = choose|j: int| 0 <= j < e.len() && (#[trigger] e[j]).0 == k;
            table::lemma_entries_first(e, j);
            assert(!e[j].1.accepted);
        }
    }
    true
}

/// The state of each listener of a Gateway, and whether the Gateway itself is
/// accepted.
pub fn validate_gateway(
    gateway: &Gateway,
    gw_ns: &str,
    cert_data: &CertData,
    reference_grants: &Vec<ReferenceGrant>,
) -> (r: (Table<String, ListenerStatus>, GatewayCondition))
    ensures
        r.0.deep_view() == listener_statuses(
            gateway.deep_view().spec.listeners,
            gw_ns@,
            cert_data.deep_view(),
            reference_grants.deep_view(),
        ),
        r.0.keys_unique(),
        r.1.deep_view() == gateway_condition(gateway.deep_view(), r.0.deep_view()),
{
    let listeners = &gateway.spec.listeners;
    let ghost s = listeners.deep_view();
    let ghost g = |l: GatewayListenersView|
        (
            l.name,
            listener_status(
                l,
                s,
                gw_ns@,
                cert_data.deep_view(),
                reference_grants.deep_view(),
            ),
        );
    let entries = map_vec(
        listeners,
        |l: &GatewayListeners| -> (o: (String, ListenerStatus))
            ensures
                o.deep_view() == g(l.deep_view())
            {
                (
                    l.name.clone(),
                    validate_listener(l, listeners, gw_ns, cert_data, reference_grants),
                )
            },
        Ghost(g),
    );
    let statuses = table_of(&entries);
    proof {
        assert(s.map_values(g) =~= s.map_values(
            |l: GatewayListenersView|
                (
                    l.name,
                    listener_status(
                        l,
                        s,
                        gw_ns@,
                        cert_data.deep_view(),
                        reference_grants.deep_view(),
                    ),
                ),
        ));
    }
    let condition = match find_unsupported_listener(listeners) {
        Some(i) => {
            assert(s[i as int] == listeners@[i as int].deep_view());
            let mut message = "Listener '".to_owned();
            message.append(listeners[i].name.as_str());
            message.append("' uses unsupported protocol '");
            message.append(listeners[i].protocol.as_str());
            message.append("'");
            GatewayCondition { ok: false, reason: "InvalidParameters".to_owned(), message }
        },
        None => match find_unsupported_address(gateway) {
            Some(t) => {
                let mut message = "Unsupported address type '".to_owned();
                message.append(t.as_str());
                message.append("' in spec.addresses");
                GatewayCondition { ok: false, reason: "UnsupportedAddress".to_owned(), message }
            },
            None => if statuses_all_rejected(&statuses) {
                GatewayCondition {
                    ok: false,
                    reason: "InvalidListeners".to_owned(),
                    message: "All listeners are rejected due to conflicts or errors".to_owned(),
                }
            } else {
                GatewayCondition {
                    ok: true,
                    reason: "Accepted".to_owned(),
                    message: "Gateway accepted by portail controller".to_owned(),
                }
            },
        },
    };
    (statuses, condition)
}

/// A listener is programmed exactly if it is accepted and its references are
/// resolved, and it is accepted exactly if it is not in conflict.
pub proof fn law_programmed_iff_accepted_and_resolved(
    l: GatewayListenersView,
    listeners: Seq<GatewayListenersView>,
    gw_ns: Seq<char>,
    certs: CertDataView,
    grants: Seq<ReferenceGrantView>,
)
    ensures
        ({
            let ls = listener_status(l, listeners, gw_ns, certs, grants);
            &&& ls.programmed == (ls.accepted && ls.resolved_refs)
            &&& ls.accepted == !ls.conflicted
        }),
{
}

/// Listeners on one port are in conflict together or not at all.
pub proof fn law_conflict_is_shared(
    listeners: Seq<GatewayListenersView>,
    gw_ns: Seq<char>,
    certs: CertDataView,
    grants: Seq<ReferenceGrantView>,
    a: GatewayListenersView,
    b: GatewayListenersView,
)
    requires
        a.port == b.port,
    ensures
        listener_status(a, listeners, gw_ns, certs, grants).conflicted == listener_status(
            b,
            listeners,
            gw_ns,
            certs,
            grants,
        ).conflicted,
{
}

/// A marker is found wherever it stands, and only where it stands.
pub proof fn law_markers_are_found(before: Seq<u8>, marker: Seq<u8>, after: Seq<u8>, hay: Seq<u8>)
    ensures
        occurs(marker, before + marker + after),
        occurs(marker, hay) ==> exists|a: Seq<u8>, b: Seq<u8>| hay == #[trigger] (a + marker + b),
{
    let whole = before + marker + after;
    let i = before.len() as int;
    assert(whole.subrange(i, i + marker.len()) =~= marker);
    if occurs(marker, hay) {
        let k = choose|k: int|
            0 <= k <= hay.len() - marker.len() && #[trigger] hay.subrange(k, k + marker.len())
                == marker;
        let a = hay.take(k);
        let b = hay.skip(k + marker.len());
        assert(hay =~= a + marker + b) by {
            assert forall|j: int| 0 <= j < marker.len() implies hay[k + j] == marker[j] by {
                assert(hay.subrange(k, k + marker.len())[j] == hay[k + j]);
            }
        }
    }
}

/// A Secret gives a certificate and a key where both are there and each holds
/// a PEM marker of its own kind; it gives what it holds.
pub proof fn law_key_pairs(secret: SecretView)
    ensures
        secret.key_pair() is Some <==> (secret.data matches Some(d) && {
            &&& d.dom().contains("tls.crt"@)
            &&& d.dom().contains("tls.key"@)
            &&& occurs(encode_utf8("BEGIN CERTIFICATE"@), d["tls.crt"@])
            &&& occurs(encode_utf8("BEGIN PRIVATE KEY"@), d["tls.key"@]) || occurs(
                encode_utf8("BEGIN RSA PRIVATE KEY"@),
                d["tls.key"@],
            ) || occurs(encode_utf8("BEGIN EC PRIVATE KEY"@), d["tls.key"@])
        }),
        secret.key_pair() matches Some((c, k)) ==> c == secret.data->0["tls.crt"@] && k
            == secret.data->0["tls.key"@],
{
}

/// The certificates of a Gateway are those of the Secrets that its listeners
/// name, as far as it may use them and they give a certificate; each is what
/// its Secret gives.
pub proof fn law_gateway_certificates(
    gateway: GatewayView,
    gw_ns: Seq<char>,
    grants: Seq<ReferenceGrantView>,
    secrets: SecretsView,
    k: (Seq<char>, Seq<char>),
)
    ensures
        ({
            let certs = gateway_certs(gateway, gw_ns, grants, secrets);
            &&& certs.dom().contains(k) <==> exists|i: int, j: int|
                #![trigger gateway.spec.listeners[i].cert_refs()[j]]
                {
                    let r = gateway.spec.listeners[i].cert_refs()[j];
                    let ns = if r.namespace is Some {
                        r.namespace->0
                    } else {
                        gw_ns
                    };
                    &&& 0 <= i < gateway.spec.listeners.len()
                    &&& 0 <= j < gateway.spec.listeners[i].cert_refs().len()
                    &&& k == (r.name, ns)
                    &&& reference_grants::reference_allowed(
                        grants,
                        RefSource {
                            group: "gateway.networking.k8s.io"@,
                            kind: "Gateway"@,
                            namespace: gw_ns,
                        },
                        RefTarget {
                            group: Seq::empty(),
                            kind: "Secret"@,
                            namespace: ns,
                            name: r.name,
                        },
                    )
                    &&& secrets.dom().contains(k)
                    &&& secrets[k].key_pair() is Some
                }
            &&& certs.dom().contains(k) ==> Some(certs[k]) == secrets[k].key_pair()
        }),
{
    reveal_strlit("");
    assert(""@ =~= Seq::<char>::empty());
    let listeners = gateway.spec.listeners;
    let f = |l: GatewayListenersView| l.cert_refs();
    let g = |r: GatewayListenersTlsCertificateRefsView| r.resolved(gw_ns, grants, secrets);
    let refs = listeners.flat_map(f);
    let entries = refs.filter_map(g);
    let certs = gateway_certs(gateway, gw_ns, grants, secrets);
    assert(certs == table::insert_all(entries));
    if certs.dom().contains(k) {
        let n = table::lemma_insert_all_value(entries, k);
        assert(entries.contains(entries[n]));
        let m = lists::lemma_filter_map_origin(refs, g, entries[n]);
        assert(refs.contains(refs[m]));
        let i = lists::lemma_flat_map_origin(listeners, f, refs[m]);
        assert(listeners[i].cert_refs().contains(refs[m]));
        let j = choose|j: int|
            0 <= j < listeners[i].cert_refs().len() && listeners[i].cert_refs()[j] == refs[m];
        assert(gateway.spec.listeners[i].cert_refs()[j].resolved(gw_ns, grants, secrets) is Some);
    }
    if exists|i: int, j: int|
        #![trigger gateway.spec.listeners[i].cert_refs()[j]]
        0 <= i < listeners.len() && 0 <= j < gateway.spec.listeners[i].cert_refs().len() && (
        gateway.spec.listeners[i].cert_refs()[j].resolved(gw_ns, grants, secrets) matches Some(e)
            && e.0 == k) {
        let (i, j) = choose|i: int, j: int|
            #![trigger gateway.spec.listeners[i].cert_refs()[j]]
            0 <= i < listeners.len() && 0 <= j < gateway.spec.listeners[i].cert_refs().len() && (
            gateway.spec.listeners[i].cert_refs()[j].resolved(gw_ns, grants, secrets) matches Some(
                e,
            ) && e.0 == k);
        let r = gateway.spec.listeners[i].cert_refs()[j];
        assert(f(listeners[i]).contains(r));
        lists::lemma_flat_map_contains(listeners, f, i, r);
        lists::lemma_filter_map_contains(refs, g, r, g(r)->0);
        let n = choose|n: int| 0 <= n < entries.len() && entries[n] == g(r)->0;
        table::lemma_insert_all_dom(entries, k);
        assert(entries[n].0 == k);
    }
}

/// What is wrong with a certificate reference: first that it is to no Secret of
/// the core group, then that no grant allows it, then that there is no
/// certificate. A reference that is none of these has no fault.
pub proof fn law_certificate_faults(
    r: GatewayListenersTlsCertificateRefsView,
    gw_ns: Seq<char>,
    certs: CertDataView,
    grants: Seq<ReferenceGrantView>,
)
    ensures
        ({
            let fault = r.fault(gw_ns, certs, grants);
            let ns = if r.namespace is Some {
                r.namespace->0
            } else {
                gw_ns
            };
            let core = (r.group matches Some(g) ==> g.len() == 0) && (r.kind matches Some(k) ==> k
                == "Secret"@);
            let allowed = reference_grants::reference_allowed(
                grants,
                RefSource {
                    group: "gateway.networking.k8s.io"@,
                    kind: "Gateway"@,
                    namespace: gw_ns,
                },
                RefTarget { group: Seq::empty(), kind: "Secret"@, namespace: ns, name: r.name },
            );
            let there = certs.dom().contains((r.name, ns));
            &&& fault is None <==> core && allowed && there
            &&& !core ==> fault->0.reason == "InvalidCertificateRef"@ && fault->0.message
                == "Unsupported certificateRef group/kind: "@ + (if r.group is Some {
                r.group->0
            } else {
                Seq::empty()
            }) + "/"@ + (if r.kind is Some {
                r.kind->0
            } else {
                "Secret"@
            })
            &&& core && !allowed ==> fault->0.reason == "RefNotPermitted"@ && fault->0.message
                == "Cross-namespace certificate ref "@ + ns + "/"@ + r.name
                + " not allowed by ReferenceGrant"@
            &&& core && allowed && !there ==> fault->0.reason == "InvalidCertificateRef"@
                && fault->0.message == "Secret "@ + ns + "/"@ + r.name
                + " not found or missing tls.crt/tls.key"@
        }),
{
    reveal_strlit("");
    assert(""@ =~= Seq::<char>::empty());
}

/// The kinds that a listener may list are five kinds of routes of the Gateway
/// API; those that it lists are told one by one, as far as they are known. A
/// listener without a list serves the kind of its protocol.
pub proof fn law_listed_kinds(
    l: GatewayListenersView,
    ar: crate::kubernetes::resources::GatewayListenersAllowedRoutesView,
    kinds: Seq<GatewayListenersAllowedRoutesKindsView>,
    k: GatewayListenersAllowedRoutesKindsView,
)
    ensures
        known_kind(k) <==> (k.group matches Some(g) ==> g == "gateway.networking.k8s.io"@) && (k.kind
            == "HTTPRoute"@ || k.kind == "TCPRoute"@ || k.kind == "TLSRoute"@ || k.kind
            == "UDPRoute"@ || k.kind == "GRPCRoute"@),
        ({
            let of = |list: Option<Seq<GatewayListenersAllowedRoutesKindsView>>|
                GatewayListenersView {
                    allowed_routes: Some(
                        crate::kubernetes::resources::GatewayListenersAllowedRoutesView {
                            kinds: list,
                            ..ar
                        },
                    ),
                    ..l
                };
            &&& of(None).supported_kinds() == status::protocol_kinds(l.protocol)
            &&& !of(None).lists_unknown_kind()
            &&& of(Some(Seq::empty())).supported_kinds().len() == 0
            &&& !of(Some(Seq::empty())).lists_unknown_kind()
            &&& of(Some(kinds.push(k))).supported_kinds() == of(Some(kinds)).supported_kinds() + (
            if known_kind(k) {
                seq![status::kind_json(k.kind)]
            } else {
                Seq::empty()
            })
            &&& of(Some(kinds.push(k))).lists_unknown_kind() <==> of(
                Some(kinds),
            ).lists_unknown_kind() || !known_kind(k)
        }),
        l.allowed_routes is None ==> l.supported_kinds() == status::protocol_kinds(l.protocol)
            && !l.lists_unknown_kind(),
{
    let f = |x: GatewayListenersAllowedRoutesKindsView|
        if known_kind(x) {
            Some(status::kind_json(x.kind))
        } else {
            None
        };
    reveal_with_fuel(Seq::filter_map, 2);
    let more = kinds.push(k);
    assert(more.drop_last() =~= kinds);
    assert(more.last() == k);
    assert(more[kinds.len() as int] == k);
    assert(kinds.filter_map(f) + Seq::empty() =~= kinds.filter_map(f));
    if exists|i: int| 0 <= i < kinds.len() && !known_kind(#[trigger] kinds[i]) {
        let i = choose|i: int| 0 <= i < kinds.len() && !known_kind(#[trigger] kinds[i]);
        assert(more[i] == kinds[i]);
    }
    if exists|i: int| 0 <= i < more.len() && !known_kind(#[trigger] more[i]) {
        let i = choose|i: int| 0 <= i < more.len() && !known_kind(#[trigger] more[i]);
        if i < kinds.len() {
            assert(kinds[i] == more[i]);
        }
    }
}

/// A listener that needs certificates and has no section for them is at fault;
/// one with the section is at fault for each of its references; one that needs
/// none is not.
pub proof fn law_tls_faults(
    l: GatewayListenersView,
    gw_ns: Seq<char>,
    certs: CertDataView,
    grants: Seq<ReferenceGrantView>,
)
    ensures
        ({
            let faults = l.tls_faults(gw_ns, certs, grants);
            let needs = l.protocol == "HTTPS"@ || l.protocol == "TLS"@;
            &&& l.tls is None && !needs ==> faults.len() == 0
            &&& l.tls is None && needs ==> faults.len() == 1 && faults[0].reason
                == "InvalidCertificateRef"@ && faults[0].message
                == "HTTPS/TLS listener requires TLS configuration"@
            &&& l.tls matches Some(t) ==> t.certificate_refs is None ==> faults.len() == 0
            &&& l.tls matches Some(t) ==> t.certificate_refs matches Some(refs) ==> {
                &&& faults.len() == 0 <==> forall|i: int|
                    0 <= i < refs.len() ==> (#[trigger] refs[i]).fault(gw_ns, certs, grants) is None
                &&& forall|i: int|
                    0 <= i < refs.len() && (#[trigger] refs[i]).fault(gw_ns, certs, grants) is Some
                        ==> faults.contains(refs[i].fault(gw_ns, certs, grants)->0)
                &&& refs.len() > 0 && refs.last().fault(gw_ns, certs, grants) is Some
                    ==> faults.last() == refs.last().fault(gw_ns, certs, grants)->0
            }
        }),
{
    if let Some(t) = l.tls {
        if let Some(refs) = t.certificate_refs {
            let g = |r: GatewayListenersTlsCertificateRefsView| r.fault(gw_ns, certs, grants);
            let faults = refs.filter_map(g);
            assert(l.tls_faults(gw_ns, certs, grants) == faults);
            assert forall|i: int|
                0 <= i < refs.len() && (#[trigger] refs[i]).fault(
                    gw_ns,
                    certs,
                    grants,
                ) is Some implies faults.contains(refs[i].fault(gw_ns, certs, grants)->0) by {
                assert(refs.contains(refs[i]));
                lists::lemma_filter_map_contains(refs, g, refs[i], g(refs[i])->0);
            }
            if faults.len() > 0 {
                assert(faults.contains(faults[0]));
                let i = lists::lemma_filter_map_origin(refs, g, faults[0]);
                assert(refs[i].fault(gw_ns, certs, grants) is Some);
            }
            reveal_with_fuel(Seq::filter_map, 2);
        }
    }
}

/// What the status of a listener says: a port that is shared by two protocols
/// is a conflict; kinds that are not known come before faults of certificates,
/// of which the last is told.
pub proof fn law_listener_status_meaning(
    l: GatewayListenersView,
    listeners: Seq<GatewayListenersView>,
    gw_ns: Seq<char>,
    certs: CertDataView,
    grants: Seq<ReferenceGrantView>,
)
    ensures
        ({
            let s = listener_status(l, listeners, gw_ns, certs, grants);
            let faults = l.tls_faults(gw_ns, certs, grants);
            let resolved = !l.lists_unknown_kind() && faults.len() == 0;
            &&& s.conflicted <==> exists|i: int, j: int|
                #![trigger listeners[i], listeners[j]]
                0 <= i < listeners.len() && 0 <= j < listeners.len() && listeners[i].port == l.port
                    && listeners[j].port == l.port && listeners[i].protocol
                    != listeners[j].protocol
            &&& s.accepted == !s.conflicted
            &&& s.programmed == (s.accepted && s.resolved_refs)
            &&& s.resolved_refs == resolved
            &&& s.supported_kinds == l.supported_kinds()
            &&& s.conflicted ==> {
                &&& s.accepted_reason == "ProtocolConflict"@
                &&& s.accepted_message
                    == "Listener port conflicts with another listener using a different protocol"@
                &&& s.conflicted_reason == "ProtocolConflict"@
                &&& s.conflicted_message
                    == "Listener port shared with another listener using different protocol"@
                &&& s.programmed_message == "Listener not programmed due to acceptance failure"@
            }
            &&& !s.conflicted ==> {
                &&& s.accepted_reason == "Accepted"@
                &&& s.accepted_message == "Listener accepted"@
                &&& s.conflicted_reason == "NoConflicts"@
                &&& s.conflicted_message == "No conflicts detected"@
                &&& !resolved ==> s.programmed_message == "Listener has unresolved references"@
                &&& resolved ==> s.programmed_message == "Programmed"@
            }
            &&& s.programmed ==> s.programmed_reason == "Programmed"@
            &&& !s.programmed ==> s.programmed_reason == "Invalid"@
            &&& resolved ==> s.resolved_refs_reason == "ResolvedRefs"@ && s.resolved_refs_message
                == "All references resolved"@
            &&& l.lists_unknown_kind() ==> s.resolved_refs_reason == "InvalidRouteKinds"@
                && s.resolved_refs_message
                == "One or more route kinds in allowedRoutes are not supported"@
            &&& !l.lists_unknown_kind() && faults.len() > 0 ==> s.resolved_refs_reason
                == faults.last().reason && s.resolved_refs_message == faults.last().message
        }),
{
}

/// Every listener has a status under its name; where names repeat, the last one
/// counts.
pub proof fn law_listener_statuses(
    listeners: Seq<GatewayListenersView>,
    gw_ns: Seq<char>,
    certs: CertDataView,
    grants: Seq<ReferenceGrantView>,
    i: int,
    name: Seq<char>,
)
    requires
        0 <= i < listeners.len(),
        forall|j: int| i < j < listeners.len() ==> (#[trigger] listeners[j]).name
            != listeners[i].name,
    ensures
        ({
            let all = listener_statuses(listeners, gw_ns, certs, grants);
            &&& all.dom().contains(listeners[i].name)
            &&& all[listeners[i].name] == listener_status(
                listeners[i],
                listeners,
                gw_ns,
                certs,
                grants,
            )
            &&& all.dom().contains(name) <==> exists|j: int|
                0 <= j < listeners.len() && (#[trigger] listeners[j]).name == name
        }),
{
    let f = |l: GatewayListenersView|
        (l.name, listener_status(l, listeners, gw_ns, certs, grants));
    let entries = listeners.map_values(f);
    assert(listener_statuses(listeners, gw_ns, certs, grants) == table::insert_all(entries));
    assert forall|j: int| i < j < entries.len() implies (#[trigger] entries[j]).0
        != entries[i].0 by {
        assert(listeners[j].name != listeners[i].name);
    }
    table::lemma_insert_all_last(entries, i);
    table::lemma_insert_all_dom(entries, name);
    if exists|j: int| 0 <= j < listeners.len() && (#[trigger] listeners[j]).name == name {
        let j = choose|j: int| 0 <= j < listeners.len() && (#[trigger] listeners[j]).name == name;
        assert(entries[j].0 == name);
    }
    if exists|j: int| 0 <= j < entries.len() && (#[trigger] entries[j]).0 == name {
        let j = choose|j: int| 0 <= j < entries.len() && (#[trigger] entries[j]).0 == name;
        assert(listeners[j].name == name);
    }
}

proof fn lemma_unsupported_listener(listeners: Seq<GatewayListenersView>) -> (i: int)
    ensures
        match unsupported_listener(listeners) {
            Some(l) => 0 <= i < listeners.len() && l == listeners[i] && converters::protocol_named(
                l.protocol,
            ) is None && forall|j: int|
                0 <= j < i ==> converters::protocol_named(
                    (#[trigger] listeners[j]).protocol,
                ) is Some,
            None => forall|j: int|
                0 <= j < listeners.len() ==> converters::protocol_named(
                    (#[trigger] listeners[j]).protocol,
                ) is Some,
        },
    decreases listeners.len(),
{
    if listeners.len() == 0 {
        0
    } else if converters::protocol_named(listeners.first().protocol) is None {
        0
    } else {
        let rest = listeners.drop_first();
        let i = lemma_unsupported_listener(rest);
        assert forall|j: int|
            0 <= j < listeners.len() && (j <= i || unsupported_listener(rest) is None) && j > 0 implies (
        #[trigger] listeners[j]) == rest[j - 1] by {}
        assert forall|j: int|
            0 <= j < (if unsupported_listener(rest) is None {
                listeners.len() as int
            } else {
                i + 1
            }) implies converters::protocol_named((#[trigger] listeners[j]).protocol) is Some by {
            if j > 0 {
                assert(converters::protocol_named(rest[j - 1].protocol) is Some);
            }
        }
        i + 1
    }
}

proof fn lemma_unsupported_address(addrs: Seq<GatewayAddressesView>)
    ensures
        unsupported_address(addrs) is None <==> forall|j: int|
            0 <= j < addrs.len() ==> supported_address_type(address_type(#[trigger] addrs[j])),
    decreases addrs.len(),
{
    if addrs.len() > 0 {
        let rest = addrs.drop_first();
        lemma_unsupported_address(rest);
        assert(forall|j: int| 0 <= j < rest.len() ==> #[trigger] rest[j] == addrs[j + 1]);
        if forall|j: int|
            0 <= j < addrs.len() ==> supported_address_type(address_type(#[trigger] addrs[j])) {
            assert(supported_address_type(address_type(addrs[0])));
            assert forall|j: int| 0 <= j < rest.len() implies supported_address_type(
                address_type(#[trigger] rest[j]),
            ) by {
                assert(supported_address_type(address_type(addrs[j + 1])));
            }
        }
        if unsupported_address(addrs) is None {
            assert forall|j: int| 0 <= j < addrs.len() implies supported_address_type(
                address_type(#[trigger] addrs[j]),
            ) by {
                if j > 0 {
                    assert(supported_address_type(address_type(rest[j - 1])));
                }
            }
        }
    }
}

/// A Gateway is accepted unless a listener speaks a protocol that the data
/// plane does not, an address is of a type that is not supported, or it has
/// listeners and all of them are rejected; the first of these is told.
pub proof fn law_gateway_acceptance(
    gateway: GatewayView,
    statuses: Map<Seq<char>, ListenerStatusView>,
)
    ensures
        ({
            let c = gateway_condition(gateway, statuses);
            let ls = gateway.spec.listeners;
            let spoken = forall|i: int|
                0 <= i < ls.len() ==> converters::protocol_named(
                    (#[trigger] ls[i]).protocol,
                ) is Some;
            let addressed = gateway.spec.addresses matches Some(addrs) ==> forall|i: int|
                0 <= i < addrs.len() ==> ((#[trigger] addrs[i]).type_ matches Some(t) ==> t
                    == "IPAddress"@ || t == "Hostname"@ || t == NETWORK_ADDRESS_TYPE@);
            let rejected = (exists|k: Seq<char>| #[trigger] statuses.dom().contains(k)) && forall|
                k: Seq<char>,
            | #[trigger] statuses.dom().contains(k) ==> !statuses[k].accepted;
            &&& c.ok <==> spoken && addressed && !rejected
            &&& c.ok ==> c.reason == "Accepted"@ && c.message
                == "Gateway accepted by portail controller"@
            &&& !spoken ==> c.reason == "InvalidParameters"@ && exists|i: int|
                0 <= i < ls.len() && converters::protocol_named((#[trigger] ls[i]).protocol) is None
                    && (forall|j: int|
                    0 <= j < i ==> converters::protocol_named(
                        (#[trigger] ls[j]).protocol,
                    ) is Some) && c.message == "Listener '"@ + ls[i].name
                    + "' uses unsupported protocol '"@ + ls[i].protocol + "'"@
            &&& spoken && !addressed ==> c.reason == "UnsupportedAddress"@
            &&& spoken && addressed && rejected ==> c.reason == "InvalidListeners"@ && c.message
                == "All listeners are rejected due to conflicts or errors"@
        }),
{
    let ls = gateway.spec.listeners;
    let i = lemma_unsupported_listener(ls);
    if unsupported_listener(ls) is Some {
        assert(converters::protocol_named(ls[i].protocol) is None);
    }
    if let Some(addrs) = gateway.spec.addresses {
        lemma_unsupported_address(addrs);
        assert forall|j: int| 0 <= j < addrs.len() implies supported_address_type(
            address_type(#[trigger] addrs[j]),
        ) == (addrs[j].type_ matches Some(t) ==> t == "IPAddress"@ || t == "Hostname"@ || t
            == NETWORK_ADDRESS_TYPE@) by {}
    }
}

/// An address of a type that is not supported is told by its type, the first
/// of several.
pub proof fn law_first_unsupported_address(
    before: Seq<GatewayAddressesView>,
    a: GatewayAddressesView,
    after: Seq<GatewayAddressesView>,
)
    requires
        unsupported_address(before) is None,
        a.type_ is Some,
        a.type_->0 != "IPAddress"@,
        a.type_->0 != "Hostname"@,
        a.type_->0 != NETWORK_ADDRESS_TYPE@,
    ensures
        unsupported_address(before + seq![a] + after) == a.type_,
    decreases before.len(),
{
    let all = before + seq![a] + after;
    if before.len() == 0 {
        assert(all.first() == a);
    } else {
        assert(all.first() == before.first());
        assert(all.drop_first() =~= before.drop_first() + seq![a] + after);
        law_first_unsupported_address(before.drop_first(), a, after);
    }
}

} // verus!
