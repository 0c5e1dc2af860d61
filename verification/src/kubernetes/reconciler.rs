//! From a Gateway and the routes around it to a configuration and one verdict
//! per parent reference.
use crate::config::{
    BackendRef, BackendRefView, GatewayConfigView, HttpRouteConfig, HttpRouteConfigView,
    HttpRouteFilter, HttpRouteFilterView, HttpRouteRule, HttpRouteRuleView, ListenerConfig,
    ListenerConfigView, PortailConfig, PortailConfigView, TcpRouteConfig, TcpRouteConfigView,
    TcpRouteRule, TcpRouteRuleView, TlsRouteConfig, TlsRouteConfigView, TlsRouteRule,
    TlsRouteRuleView, UdpRouteConfig, UdpRouteConfigView, UdpRouteRule, UdpRouteRuleView,
};
use crate::dup::Dup;
use crate::kubernetes::converters;
use crate::kubernetes::converters::{
    convert_gateway, convert_http_route, convert_tcp_route, convert_tls_route, convert_udp_route,
    parse_backend_dns_name, route_namespace, CertData, CertDataView, ConvertError,
    ConvertErrorView,
};
use crate::kubernetes::parent_ref;
use crate::kubernetes::parent_ref::{
    parent_ref_matches_gateway, route_targets_gateway, GATEWAY_GROUP,
};
use crate::kubernetes::reference_grants;
use crate::kubernetes::reference_grants::{
    is_reference_allowed, listeners_for_parent_ref, RefSource, RefTarget, Rejection, RouteTraits,
};
use crate::kubernetes::resources::{
    Gateway, GatewayListeners, GatewayListenersView, GatewayView, HTTPRoute, HTTPRouteView,
    IntOrString, IntOrStringView, ObjectMetaView, ReferenceGrant, ReferenceGrantView,
    RouteParentRef, RouteParentRefView, Service, ServicePortView, ServiceView, TCPRoute,
    TCPRouteView, TLSRoute, TLSRouteView, UDPRoute, UDPRouteView,
};
use crate::kubernetes::services::{ServiceState, ServiceStateView};
use crate::lists;
use crate::lists::{contains_same, filter_vec, map_vec};
use crate::table::Table;
use crate::text;
use crate::text::{join_strings, opt_or, str_eq};
use std::collections::HashMap;
use vstd::prelude::*;

verus! {

/// The verdict on one parent reference of a route.
#[derive(Clone, Debug, PartialEq, Eq)]
pub struct RouteAcceptance {
    pub name: String,
    pub namespace: String,
    pub kind: &'static str,
    pub accepted: bool,
    pub accepted_reason: &'static str,
    pub message: String,
    pub refs_resolved: bool,
    pub refs_reason: &'static str,
    pub refs_message: String,
    pub generation: Option<i64>,
    /// The section that the reference names.
    pub section_name: Option<String>,
    /// The port that the reference names.
    pub port: Option<i32>,
    /// The listeners that took the reference.
    pub listener_names: Vec<String>,
}

/// What a [`RouteAcceptance`] denotes.
#[verifier::ext_equal]
pub struct RouteAcceptanceView {
    pub name: Seq<char>,
    pub namespace: Seq<char>,
    pub kind: Seq<char>,
    pub accepted: bool,
    pub accepted_reason: Seq<char>,
    pub message: Seq<char>,
    pub refs_resolved: bool,
    pub refs_reason: Seq<char>,
    pub refs_message: Seq<char>,
    pub generation: Option<i64>,
    pub section_name: Option<Seq<char>>,
    pub port: Option<i32>,
    pub listener_names: Seq<Seq<char>>,
}

impl DeepView for RouteAcceptance {
    type V = RouteAcceptanceView;

    open spec fn deep_view(&self) -> RouteAcceptanceView {
        RouteAcceptanceView {
            name: self.name.deep_view(),
            namespace: self.namespace.deep_view(),
            kind: self.kind.deep_view(),
            accepted: self.accepted.deep_view(),
            accepted_reason: self.accepted_reason.deep_view(),
            message: self.message.deep_view(),
            refs_resolved: self.refs_resolved.deep_view(),
            refs_reason: self.refs_reason.deep_view(),
            refs_message: self.refs_message.deep_view(),
            generation: self.generation.deep_view(),
            section_name: self.section_name.deep_view(),
            port: self.port.deep_view(),
            listener_names: self.listener_names.deep_view(),
        }
    }
}

impl Dup for RouteAcceptance {
    fn dup(&self) -> (r: Self) {
        RouteAcceptance {
            name: self.name.dup(),
            namespace: self.namespace.dup(),
            kind: self.kind,
            accepted: self.accepted.dup(),
            accepted_reason: self.accepted_reason,
            message: self.message.dup(),
            refs_resolved: self.refs_resolved.dup(),
            refs_reason: self.refs_reason,
            refs_message: self.refs_message.dup(),
            generation: self.generation.dup(),
            section_name: self.section_name.dup(),
            port: self.port.dup(),
            listener_names: self.listener_names.dup(),
        }
    }
}

// ---------------------------------------------------------------------------
// Route kinds
// ---------------------------------------------------------------------------

/// The rules of an HTTP route, as far as backends are concerned: backend
/// references in order.
pub open spec fn http_backend_refs(rules: Seq<HttpRouteRuleView>) -> Seq<BackendRefView> {
    rules.flat_map(|r: HttpRouteRuleView| r.backend_refs)
}

/// The backend that a filter mirrors requests to, if it is a mirror.
pub open spec fn mirror_of(f: HttpRouteFilterView) -> Option<BackendRefView> {
    match f {
        HttpRouteFilterView::RequestMirror { config } => Some(config.backend_ref),
        _ => None,
    }
}

/// The mirror backends of the rules of an HTTP route, in order.
pub open spec fn http_mirror_refs(rules: Seq<HttpRouteRuleView>) -> Seq<BackendRefView> {
    rules.flat_map(
        |r: HttpRouteRuleView| r.filters.filter_map(|f: HttpRouteFilterView| mirror_of(f)),
    )
}

/// The references whose name and port are not among `invalid`.
pub open spec fn keep_valid(refs: Seq<BackendRefView>, invalid: Seq<(Seq<char>, u16)>) -> Seq<
    BackendRefView,
> {
    refs.filter(|b: BackendRefView| !invalid.contains((b.name, b.port)))
}

/// The filters without the mirrors to a name and port among `invalid`.
pub open spec fn keep_valid_mirrors(
    filters: Seq<HttpRouteFilterView>,
    invalid: Seq<(Seq<char>, u16)>,
) -> Seq<HttpRouteFilterView> {
    filters.filter(
        |f: HttpRouteFilterView|
            match mirror_of(f) {
                Some(b) => !invalid.contains((b.name, b.port)),
                None => true,
            },
    )
}

/// What the four kinds of routes have in common.
pub trait GatewayRoute: DeepView + Sized {
    type Config: DeepView;

    spec fn spec_kind() -> Seq<char>;

    spec fn spec_parent_refs(v: Self::V) -> Option<Seq<RouteParentRefView>>;

    spec fn spec_metadata(v: Self::V) -> ObjectMetaView;

    spec fn spec_hostnames(v: Self::V) -> Seq<Seq<char>>;

    spec fn spec_convert(v: Self::V, gateway_name: Seq<char>, gateway_ns: Seq<char>) -> Result<
        <Self::Config as DeepView>::V,
        ConvertErrorView,
    >;

    spec fn spec_backend_refs(c: <Self::Config as DeepView>::V) -> Seq<BackendRefView>;

    spec fn spec_mirror_refs(c: <Self::Config as DeepView>::V) -> Seq<BackendRefView>;

    spec fn spec_without_backends(
        c: <Self::Config as DeepView>::V,
        invalid: Seq<(Seq<char>, u16)>,
    ) -> <Self::Config as DeepView>::V;

    spec fn spec_without_mirrors(
        c: <Self::Config as DeepView>::V,
        invalid: Seq<(Seq<char>, u16)>,
    ) -> <Self::Config as DeepView>::V;

    /// The kind of the route.
    fn kind() -> (r: &'static str)
        ensures
            r@ == Self::spec_kind(),
    ;

    /// The parents that the route names.
    fn parent_refs(&self) -> (r: &Option<Vec<RouteParentRef>>)
        ensures
            r.deep_view() == Self::spec_parent_refs(self.deep_view()),
    ;

    /// The namespace of the route.
    fn route_namespace(&self) -> (r: &str)
        ensures
            r@ == namespace_of(Self::spec_metadata(self.deep_view())),
    ;

    /// The name and generation of the route.
    fn identity(&self) -> (r: (&str, Option<i64>))
        ensures
            r.0@ == text::or_text(Self::spec_metadata(self.deep_view()).name, "unknown"@),
            r.1 == Self::spec_metadata(self.deep_view()).generation,
    ;

    /// The host names of the route; none for the kinds that have none.
    fn hostnames(&self) -> (r: Vec<String>)
        ensures
            r.deep_view() == Self::spec_hostnames(self.deep_view()),
    ;

    /// The configuration of the route.
    fn convert(&self, gateway_name: &str, gateway_ns: &str) -> (r: Result<Self::Config, ConvertError>)
        ensures
            converters::outcome(r) == Self::spec_convert(
                self.deep_view(),
                gateway_name@,
                gateway_ns@,
            ),
    ;

    /// The backends that the configuration forwards to.
    fn backend_refs(config: &Self::Config) -> (r: Vec<&BackendRef>)
        ensures
            r.deep_view() == Self::spec_backend_refs(config.deep_view()),
    ;

    /// The backends that the configuration mirrors requests to.
    fn mirror_backend_refs(config: &Self::Config) -> (r: Vec<&BackendRef>)
        ensures
            r.deep_view() == Self::spec_mirror_refs(config.deep_view()),
    ;

    /// Takes the invalid backends out.
    fn remove_invalid_backends(config: &mut Self::Config, invalid: &Vec<(String, u16)>)
        ensures
            final(config).deep_view() == Self::spec_without_backends(
                old(config).deep_view(),
                invalid.deep_view(),
            ),
    ;

    /// Takes the mirrors to invalid backends out, and leaves the backends
    /// alone: a mirror that may not be used must not break primary traffic.
    fn remove_invalid_mirrors(config: &mut Self::Config, invalid: &Vec<(String, u16)>)
        ensures
            final(config).deep_view() == Self::spec_without_mirrors(
                old(config).deep_view(),
                invalid.deep_view(),
            ),
    ;
}

/// The namespace of an object; `default` where it has none.
pub open spec fn namespace_of(m: ObjectMetaView) -> Seq<char> {
    text::or_text(m.namespace, "default"@)
}

fn valid_backends(refs: &Vec<BackendRef>, invalid: &Vec<(String, u16)>) -> (r: Vec<BackendRef>)
    ensures
        r.deep_view() == keep_valid(refs.deep_view(), invalid.deep_view()),
{
    let ghost g = |b: BackendRefView| !invalid.deep_view().contains((b.name, b.port));
    let r = filter_vec(
        refs,
        |b: &BackendRef| -> (o: bool)
            ensures
                o == g(b.deep_view())
            {
                let key = (b.name.clone(), b.port);
                !contains_same(invalid, &key)
            },
        Ghost(g),
    );
    assert(g =~= (|b: BackendRefView| !invalid.deep_view().contains((b.name, b.port))));
    r
}

fn mirror_backend(f: &HttpRouteFilter) -> (r: Option<&BackendRef>)
    ensures
        r.deep_view() == mirror_of(f.deep_view()),
{
    match f {
        HttpRouteFilter::RequestMirror { config } => Some(&config.backend_ref),
        _ => None,
    }
}

fn valid_mirrors(filters: &Vec<HttpRouteFilter>, invalid: &Vec<(String, u16)>) -> (r: Vec<
    HttpRouteFilter,
>)
    ensures
        r.deep_view() == keep_valid_mirrors(filters.deep_view(), invalid.deep_view()),
{
    let ghost g = |f: HttpRouteFilterView|
        match mirror_of(f) {
            Some(b) => !invalid.deep_view().contains((b.name, b.port)),
            None => true,
        };
    let r = filter_vec(
        filters,
        |f: &HttpRouteFilter| -> (o: bool)
            ensures
                o == g(f.deep_view())
            {
                match mirror_backend(f) {
                    Some(b) => {
                        let key = (b.name.clone(), b.port);
                        !contains_same(invalid, &key)
                    },
                    None => true,
                }
            },
        Ghost(g),
    );
    r
}

impl HttpRouteRuleView {
    pub open spec fn without_backends(self, invalid: Seq<(Seq<char>, u16)>) -> HttpRouteRuleView {
        HttpRouteRuleView { backend_refs: keep_valid(self.backend_refs, invalid), ..self }
    }

    pub open spec fn without_mirrors(self, invalid: Seq<(Seq<char>, u16)>) -> HttpRouteRuleView {
        HttpRouteRuleView { filters: keep_valid_mirrors(self.filters, invalid), ..self }
    }
}

impl GatewayRoute for HTTPRoute {
    type Config = HttpRouteConfig;

    open spec fn spec_kind() -> Seq<char> {
        "HTTPRoute"@
    }

    open spec fn spec_parent_refs(v: HTTPRouteView) -> Option<Seq<RouteParentRefView>> {
        v.spec.parent_refs
    }

    open spec fn spec_metadata(v: HTTPRouteView) -> ObjectMetaView {
        v.metadata
    }

    open spec fn spec_hostnames(v: HTTPRouteView) -> Seq<Seq<char>> {
        match v.spec.hostnames {
            Some(h) => h,
            None => Seq::empty(),
        }
    }

    open spec fn spec_convert(v: HTTPRouteView, gateway_name: Seq<char>, gateway_ns: Seq<char>) -> Result<
        HttpRouteConfigView,
        ConvertErrorView,
    > {
        Ok(v.converted(gateway_name, gateway_ns))
    }

    open spec fn spec_backend_refs(c: HttpRouteConfigView) -> Seq<BackendRefView> {
        http_backend_refs(c.rules)
    }

    open spec fn spec_mirror_refs(c: HttpRouteConfigView) -> Seq<BackendRefView> {
        http_mirror_refs(c.rules)
    }

    open spec fn spec_without_backends(
        c: HttpRouteConfigView,
        invalid: Seq<(Seq<char>, u16)>,
    ) -> HttpRouteConfigView {
        HttpRouteConfigView {
            rules: c.rules.map_values(|r: HttpRouteRuleView| r.without_backends(invalid)),
            ..c
        }
    }

    open spec fn spec_without_mirrors(
        c: HttpRouteConfigView,
        invalid: Seq<(Seq<char>, u16)>,
    ) -> HttpRouteConfigView {
        HttpRouteConfigView {
            rules: c.rules.map_values(|r: HttpRouteRuleView| r.without_mirrors(invalid)),
            ..c
        }
    }

    fn kind() -> (r: &'static str) {
        "HTTPRoute"
    }

    fn parent_refs(&self) -> (r: &Option<Vec<RouteParentRef>>) {
        &self.spec.parent_refs
    }

    fn route_namespace(&self) -> (r: &str) {
        route_namespace(&self.metadata)
    }

    fn identity(&self) -> (r: (&str, Option<i64>)) {
        (opt_or(&self.metadata.name, "unknown"), self.metadata.generation)
    }

    fn hostnames(&self) -> (r: Vec<String>) {
        match &self.spec.hostnames {
            Some(h) => h.dup(),
            None => {
                let none: Vec<String> = Vec::new();
                assert(none.deep_view() =~= Seq::<Seq<char>>::empty());
                none
            },
        }
    }

    fn convert(&self, gateway_name: &str, gateway_ns: &str) -> (r: Result<HttpRouteConfig, ConvertError>) {
        convert_http_route(self, gateway_name, gateway_ns)
    }

    fn backend_refs(config: &HttpRouteConfig) -> (r: Vec<&BackendRef>) {
        let mut out: Vec<&BackendRef> = Vec::new();
        let ghost f = |r: HttpRouteRuleView| r.backend_refs;
        let ghost v = config.rules.deep_view();
        let mut i: usize = 0;
        proof {
            reveal_with_fuel(Seq::flatten, 2);
            assert(v.take(0).map_values(f) =~= Seq::empty());
            assert(out.deep_view() =~= v.take(0).flat_map(f));
        }
        while i < config.rules.len()
            invariant
                i <= config.rules.len(),
                v == config.rules.deep_view(),
                f == (|r: HttpRouteRuleView| r.backend_refs),
                out.deep_view() == v.take(i as int).flat_map(f),
            decreases config.rules.len() - i,
        {
            let refs = &config.rules[i].backend_refs;
            proof {
                v.take(i as int).lemma_flat_map_push(f, v[i as int]);
                assert(v.take(i as int).push(v[i as int]) =~= v.take(i + 1));
            }
            push_refs(&mut out, refs);
            i += 1;
        }
        assert(v.take(v.len() as int) =~= v);
        out
    }

    fn mirror_backend_refs(config: &HttpRouteConfig) -> (r: Vec<&BackendRef>) {
        let mut out: Vec<&BackendRef> = Vec::new();
        let ghost m = |x: HttpRouteFilterView| mirror_of(x);
        let ghost f = |r: HttpRouteRuleView|
            r.filters.filter_map(|x: HttpRouteFilterView| mirror_of(x));
        let ghost v = config.rules.deep_view();
        let mut i: usize = 0;
        proof {
            reveal_with_fuel(Seq::flatten, 2);
            assert(v.take(0).map_values(f) =~= Seq::empty());
            assert(out.deep_view() =~= v.take(0).flat_map(f));
        }
        while i < config.rules.len()
            invariant
                i <= config.rules.len(),
                v == config.rules.deep_view(),
                m == (|x: HttpRouteFilterView| mirror_of(x)),
                f == (|r: HttpRouteRuleView|
                    r.filters.filter_map(|x: HttpRouteFilterView| mirror_of(x))),
                out.deep_view() == v.take(i as int).flat_map(f),
            decreases config.rules.len() - i,
        {
            let filters = &config.rules[i].filters;
            let ghost s = filters.deep_view();
            let ghost start = out.deep_view();
            proof {
                v.take(i as int).lemma_flat_map_push(f, v[i as int]);
                assert(v.take(i as int).push(v[i as int]) =~= v.take(i + 1));
            }
            let mut k: usize = 0;
            assert(out.deep_view() =~= start + s.take(0).filter_map(m));
            while k < filters.len()
                invariant
                    k <= filters.len(),
                    s == filters.deep_view(),
                    m == (|x: HttpRouteFilterView| mirror_of(x)),
                    out.deep_view() == start + s.take(k as int).filter_map(m),
                decreases filters.len() - k,
            {
                let ghost before = out.deep_view();
                proof {
                    assert(s.take(k + 1).drop_last() =~= s.take(k as int));
                    assert(s.take(k + 1).last() == filters@[k as int].deep_view());
                }
                match mirror_backend(&filters[k]) {
                    Some(b) => {
                        out.push(b);
                        assert(out.deep_view() =~= before.push(b.deep_view()));
                        assert(out.deep_view() =~= start + s.take(k + 1).filter_map(m));
                    },
                    None => {},
                }
                k += 1;
            }
            assert(s.take(s.len() as int) =~= s);
            i += 1;
        }
        assert(v.take(v.len() as int) =~= v);
        out
    }

    fn remove_invalid_backends(config: &mut HttpRouteConfig, invalid: &Vec<(String, u16)>) {
        let ghost g = |r: HttpRouteRuleView| r.without_backends(invalid.deep_view());
        let rules = map_vec(
            &config.rules,
            |r: &HttpRouteRule| -> (o: HttpRouteRule)
                ensures
                    o.deep_view() == g(r.deep_view())
                {
                    HttpRouteRule {
                        matches: r.matches.dup(),
                        filters: r.filters.dup(),
                        backend_refs: valid_backends(&r.backend_refs, invalid),
                        timeouts: r.timeouts.dup(),
                    }
                },
            Ghost(g),
        );
        config.rules = rules;
        assert(config.deep_view().rules =~= Self::spec_without_backends(
            old(config).deep_view(),
            invalid.deep_view(),
        ).rules);
    }

    fn remove_invalid_mirrors(config: &mut HttpRouteConfig, invalid: &Vec<(String, u16)>) {
        let ghost g = |r: HttpRouteRuleView| r.without_mirrors(invalid.deep_view());
        let rules = map_vec(
            &config.rules,
            |r: &HttpRouteRule| -> (o: HttpRouteRule)
                ensures
                    o.deep_view() == g(r.deep_view())
                {
                    HttpRouteRule {
                        matches: r.matches.dup(),
                        filters: valid_mirrors(&r.filters, invalid),
                        backend_refs: r.backend_refs.dup(),
                        timeouts: r.timeouts.dup(),
                    }
                },
            Ghost(g),
        );
        config.rules = rules;
        assert(config.deep_view().rules =~= Self::spec_without_mirrors(
            old(config).deep_view(),
            invalid.deep_view(),
        ).rules);
    }
}

fn push_refs<'a>(out: &mut Vec<&'a BackendRef>, refs: &'a Vec<BackendRef>)
    ensures
        final(out).deep_view() == old(out).deep_view() + refs.deep_view(),
{
    let ghost start = out.deep_view();
    let mut i: usize = 0;
    assert(out.deep_view() =~= start + refs.deep_view().take(0));
    while i < refs.len()
        invariant
            i <= refs.len(),
            out.deep_view() == start + refs.deep_view().take(i as int),
        decreases refs.len() - i,
    {
        let ghost before = out.deep_view();
        out.push(&refs[i]);
        assert(out.deep_view() =~= before.push(refs.deep_view()[i as int]));
        i += 1;
        assert(out.deep_view() =~= start + refs.deep_view().take(i as int));
    }
    assert(refs.deep_view().take(refs.deep_view().len() as int) =~= refs.deep_view());
}

impl TcpRouteRuleView {
    pub open spec fn without_backends(self, invalid: Seq<(Seq<char>, u16)>) -> TcpRouteRuleView {
        TcpRouteRuleView { backend_refs: keep_valid(self.backend_refs, invalid) }
    }
}

impl GatewayRoute for TCPRoute {
    type Config = TcpRouteConfig;

    open spec fn spec_kind() -> Seq<char> {
        "TCPRoute"@
    }

    open spec fn spec_parent_refs(v: TCPRouteView) -> Option<Seq<RouteParentRefView>> {
        v.spec.parent_refs
    }

    open spec fn spec_metadata(v: TCPRouteView) -> ObjectMetaView {
        v.metadata
    }

    open spec fn spec_hostnames(v: TCPRouteView) -> Seq<Seq<char>> {
        Seq::empty()
    }

    open spec fn spec_convert(v: TCPRouteView, gateway_name: Seq<char>, gateway_ns: Seq<char>) -> Result<
        TcpRouteConfigView,
        ConvertErrorView,
    > {
        Ok(v.converted(gateway_name, gateway_ns))
    }

    open spec fn spec_backend_refs(c: TcpRouteConfigView) -> Seq<BackendRefView> {
        c.rules.flat_map(|r: TcpRouteRuleView| r.backend_refs)
    }

    open spec fn spec_mirror_refs(c: TcpRouteConfigView) -> Seq<BackendRefView> {
        Seq::empty()
    }

    open spec fn spec_without_backends(
        c: TcpRouteConfigView,
        invalid: Seq<(Seq<char>, u16)>,
    ) -> TcpRouteConfigView {
        TcpRouteConfigView {
            rules: c.rules.map_values(|r: TcpRouteRuleView| r.without_backends(invalid)),
            ..c
        }
    }

    open spec fn spec_without_mirrors(
        c: TcpRouteConfigView,
        invalid: Seq<(Seq<char>, u16)>,
    ) -> TcpRouteConfigView {
        c
    }

    fn kind() -> (r: &'static str) {
        "TCPRoute"
    }

    fn parent_refs(&self) -> (r: &Option<Vec<RouteParentRef>>) {
        &self.spec.parent_refs
    }

    fn route_namespace(&self) -> (r: &str) {
        route_namespace(&self.metadata)
    }

    fn identity(&self) -> (r: (&str, Option<i64>)) {
        (opt_or(&self.metadata.name, "unknown"), self.metadata.generation)
    }

    fn hostnames(&self) -> (r: Vec<String>) {
        let none: Vec<String> = Vec::new();
        assert(none.deep_view() =~= Seq::<Seq<char>>::empty());
        none
    }

    fn convert(&self, gateway_name: &str, gateway_ns: &str) -> (r: Result<TcpRouteConfig, ConvertError>) {
        convert_tcp_route(self, gateway_name, gateway_ns)
    }

    fn backend_refs(config: &TcpRouteConfig) -> (r: Vec<&BackendRef>) {
        let mut out: Vec<&BackendRef> = Vec::new();
        let ghost f = |r: TcpRouteRuleView| r.backend_refs;
        let ghost v = config.rules.deep_view();
        let mut i: usize = 0;
        proof {
            reveal_with_fuel(Seq::flatten, 2);
            assert(v.take(0).map_values(f) =~= Seq::empty());
            assert(out.deep_view() =~= v.take(0).flat_map(f));
        }
        while i < config.rules.len()
            invariant
                i <= config.rules.len(),
                v == config.rules.deep_view(),
                f == (|r: TcpRouteRuleView| r.backend_refs),
                out.deep_view() == v.take(i as int).flat_map(f),
            decreases config.rules.len() - i,
        {
            let refs = &config.rules[i].backend_refs;
            proof {
                v.take(i as int).lemma_flat_map_push(f, v[i as int]);
                assert(v.take(i as int).push(v[i as int]) =~= v.take(i + 1));
            }
            push_refs(&mut out, refs);
            i += 1;
        }
        assert(v.take(v.len() as int) =~= v);
        out
    }

    fn mirror_backend_refs(config: &TcpRouteConfig) -> (r: Vec<&BackendRef>) {
        let none: Vec<&BackendRef> = Vec::new();
        assert(none.deep_view() =~= Seq::<BackendRefView>::empty());
        none
    }

    fn remove_invalid_backends(config: &mut TcpRouteConfig, invalid: &Vec<(String, u16)>) {
        let ghost g = |r: TcpRouteRuleView| r.without_backends(invalid.deep_view());
        let rules = map_vec(
            &config.rules,
            |r: &TcpRouteRule| -> (o: TcpRouteRule)
                ensures
                    o.deep_view() == g(r.deep_view())
                { TcpRouteRule { backend_refs: valid_backends(&r.backend_refs, invalid) } },
            Ghost(g),
        );
        config.rules = rules;
        assert(config.deep_view().rules =~= Self::spec_without_backends(
            old(config).deep_view(),
            invalid.deep_view(),
        ).rules);
    }

    fn remove_invalid_mirrors(config: &mut TcpRouteConfig, invalid: &Vec<(String, u16)>) {
    }
}

impl TlsRouteRuleView {
    pub open spec fn without_backends(self, invalid: Seq<(Seq<char>, u16)>) -> TlsRouteRuleView {
        TlsRouteRuleView { backend_refs: keep_valid(self.backend_refs, invalid) }
    }
}

impl GatewayRoute for TLSRoute {
    type Config = TlsRouteConfig;

    open spec fn spec_kind() -> Seq<char> {
        "TLSRoute"@
    }

    open spec fn spec_parent_refs(v: TLSRouteView) -> Option<Seq<RouteParentRefView>> {
        v.spec.parent_refs
    }

    open spec fn spec_metadata(v: TLSRouteView) -> ObjectMetaView {
        v.metadata
    }

    open spec fn spec_hostnames(v: TLSRouteView) -> Seq<Seq<char>> {
        v.spec.hostnames
    }

    open spec fn spec_convert(v: TLSRouteView, gateway_name: Seq<char>, gateway_ns: Seq<char>) -> Result<
        TlsRouteConfigView,
        ConvertErrorView,
    > {
        Ok(v.converted(gateway_name, gateway_ns))
    }

    open spec fn spec_backend_refs(c: TlsRouteConfigView) -> Seq<BackendRefView> {
        c.rules.flat_map(|r: TlsRouteRuleView| r.backend_refs)
    }

    open spec fn spec_mirror_refs(c: TlsRouteConfigView) -> Seq<BackendRefView> {
        Seq::empty()
    }

    open spec fn spec_without_backends(
        c: TlsRouteConfigView,
        invalid: Seq<(Seq<char>, u16)>,
    ) -> TlsRouteConfigView {
        TlsRouteConfigView {
            rules: c.rules.map_values(|r: TlsRouteRuleView| r.without_backends(invalid)),
            ..c
        }
    }

    open spec fn spec_without_mirrors(
        c: TlsRouteConfigView,
        invalid: Seq<(Seq<char>, u16)>,
    ) -> TlsRouteConfigView {
        c
    }

    fn kind() -> (r: &'static str) {
        "TLSRoute"
    }

    fn parent_refs(&self) -> (r: &Option<Vec<RouteParentRef>>) {
        &self.spec.parent_refs
    }

    fn route_namespace(&self) -> (r: &str) {
        route_namespace(&self.metadata)
    }

    fn identity(&self) -> (r: (&str, Option<i64>)) {
        (opt_or(&self.metadata.name, "unknown"), self.metadata.generation)
    }

    fn hostnames(&self) -> (r: Vec<String>) {
        self.spec.hostnames.dup()
    }

    fn convert(&self, gateway_name: &str, gateway_ns: &str) -> (r: Result<TlsRouteConfig, ConvertError>) {
        convert_tls_route(self, gateway_name, gateway_ns)
    }

    fn backend_refs(config: &TlsRouteConfig) -> (r: Vec<&BackendRef>) {
        let mut out: Vec<&BackendRef> = Vec::new();
        let ghost f = |r: TlsRouteRuleView| r.backend_refs;
        let ghost v = config.rules.deep_view();
        let mut i: usize = 0;
        proof {
            reveal_with_fuel(Seq::flatten, 2);
            assert(v.take(0).map_values(f) =~= Seq::empty());
            assert(out.deep_view() =~= v.take(0).flat_map(f));
        }
        while i < config.rules.len()
            invariant
                i <= config.rules.len(),
                v == config.rules.deep_view(),
                f == (|r: TlsRouteRuleView| r.backend_refs),
                out.deep_view() == v.take(i as int).flat_map(f),
            decreases config.rules.len() - i,
        {
            let refs = &config.rules[i].backend_refs;
            proof {
                v.take(i as int).lemma_flat_map_push(f, v[i as int]);
                assert(v.take(i as int).push(v[i as int]) =~= v.take(i + 1));
            }
            push_refs(&mut out, refs);
            i += 1;
        }
        assert(v.take(v.len() as int) =~= v);
        out
    }

    fn mirror_backend_refs(config: &TlsRouteConfig) -> (r: Vec<&BackendRef>) {
        let none: Vec<&BackendRef> = Vec::new();
        assert(none.deep_view() =~= Seq::<BackendRefView>::empty());
        none
    }

    fn remove_invalid_backends(config: &mut TlsRouteConfig, invalid: &Vec<(String, u16)>) {
        let ghost g = |r: TlsRouteRuleView| r.without_backends(invalid.deep_view());
        let rules = map_vec(
            &config.rules,
            |r: &TlsRouteRule| -> (o: TlsRouteRule)
                ensures
                    o.deep_view() == g(r.deep_view())
                { TlsRouteRule { backend_refs: valid_backends(&r.backend_refs, invalid) } },
            Ghost(g),
        );
        config.rules = rules;
        assert(config.deep_view().rules =~= Self::spec_without_backends(
            old(config).deep_view(),
            invalid.deep_view(),
        ).rules);
    }

    fn remove_invalid_mirrors(config: &mut TlsRouteConfig, invalid: &Vec<(String, u16)>) {
    }
}

impl UdpRouteRuleView {
    pub open spec fn without_backends(self, invalid: Seq<(Seq<char>, u16)>) -> UdpRouteRuleView {
        UdpRouteRuleView { backend_refs: keep_valid(self.backend_refs, invalid) }
    }
}

impl GatewayRoute for UDPRoute {
    type Config = UdpRouteConfig;

    open spec fn spec_kind() -> Seq<char> {
        "UDPRoute"@
    }

    open spec fn spec_parent_refs(v: UDPRouteView) -> Option<Seq<RouteParentRefView>> {
        v.spec.parent_refs
    }

    open spec fn spec_metadata(v: UDPRouteView) -> ObjectMetaView {
        v.metadata
    }

    open spec fn spec_hostnames(v: UDPRouteView) -> Seq<Seq<char>> {
        Seq::empty()
    }

    open spec fn spec_convert(v: UDPRouteView, gateway_name: Seq<char>, gateway_ns: Seq<char>) -> Result<
        UdpRouteConfigView,
        ConvertErrorView,
    > {
        Ok(v.converted(gateway_name, gateway_ns))
    }

    open spec fn spec_backend_refs(c: UdpRouteConfigView) -> Seq<BackendRefView> {
        c.rules.flat_map(|r: UdpRouteRuleView| r.backend_refs)
    }

    open spec fn spec_mirror_refs(c: UdpRouteConfigView) -> Seq<BackendRefView> {
        Seq::empty()
    }

    open spec fn spec_without_backends(
        c: UdpRouteConfigView,
        invalid: Seq<(Seq<char>, u16)>,
    ) -> UdpRouteConfigView {
        UdpRouteConfigView {
            rules: c.rules.map_values(|r: UdpRouteRuleView| r.without_backends(invalid)),
            ..c
        }
    }

    open spec fn spec_without_mirrors(
        c: UdpRouteConfigView,
        invalid: Seq<(Seq<char>, u16)>,
    ) -> UdpRouteConfigView {
        c
    }

    fn kind() -> (r: &'static str) {
        "UDPRoute"
    }

    fn parent_refs(&self) -> (r: &Option<Vec<RouteParentRef>>) {
        &self.spec.parent_refs
    }

    fn route_namespace(&self) -> (r: &str) {
        route_namespace(&self.metadata)
    }

    fn identity(&self) -> (r: (&str, Option<i64>)) {
        (opt_or(&self.metadata.name, "unknown"), self.metadata.generation)
    }

    fn hostnames(&self) -> (r: Vec<String>) {
        let none: Vec<String> = Vec::new();
        assert(none.deep_view() =~= Seq::<Seq<char>>::empty());
        none
    }

    fn convert(&self, gateway_name: &str, gateway_ns: &str) -> (r: Result<UdpRouteConfig, ConvertError>) {
        convert_udp_route(self, gateway_name, gateway_ns)
    }

    fn backend_refs(config: &UdpRouteConfig) -> (r: Vec<&BackendRef>) {
        let mut out: Vec<&BackendRef> = Vec::new();
        let ghost f = |r: UdpRouteRuleView| r.backend_refs;
        let ghost v = config.rules.deep_view();
        let mut i: usize = 0;
        proof {
            reveal_with_fuel(Seq::flatten, 2);
            assert(v.take(0).map_values(f) =~= Seq::empty());
            assert(out.deep_view() =~= v.take(0).flat_map(f));
        }
        while i < config.rules.len()
            invariant
                i <= config.rules.len(),
                v == config.rules.deep_view(),
                f == (|r: UdpRouteRuleView| r.backend_refs),
                out.deep_view() == v.take(i as int).flat_map(f),
            decreases config.rules.len() - i,
        {
            let refs = &config.rules[i].backend_refs;
            proof {
                v.take(i as int).lemma_flat_map_push(f, v[i as int]);
                assert(v.take(i as int).push(v[i as int]) =~= v.take(i + 1));
            }
            push_refs(&mut out, refs);
            i += 1;
        }
        assert(v.take(v.len() as int) =~= v);
        out
    }

    fn mirror_backend_refs(config: &UdpRouteConfig) -> (r: Vec<&BackendRef>) {
        let none: Vec<&BackendRef> = Vec::new();
        assert(none.deep_view() =~= Seq::<BackendRefView>::empty());
        none
    }

    fn remove_invalid_backends(config: &mut UdpRouteConfig, invalid: &Vec<(String, u16)>) {
        let ghost g = |r: UdpRouteRuleView| r.without_backends(invalid.deep_view());
        let rules = map_vec(
            &config.rules,
            |r: &UdpRouteRule| -> (o: UdpRouteRule)
                ensures
                    o.deep_view() == g(r.deep_view())
                { UdpRouteRule { backend_refs: valid_backends(&r.backend_refs, invalid) } },
            Ghost(g),
        );
        config.rules = rules;
        assert(config.deep_view().rules =~= Self::spec_without_backends(
            old(config).deep_view(),
            invalid.deep_view(),
        ).rules);
    }

    fn remove_invalid_mirrors(config: &mut UdpRouteConfig, invalid: &Vec<(String, u16)>) {
    }
}

/// What is wrong with a backend reference.
#[derive(Clone, Debug, PartialEq, Eq)]
pub struct RefFault {
    pub reason: &'static str,
    pub message: String,
}

/// What a [`RefFault`] denotes.
#[verifier::ext_equal]
pub struct RefFaultView {
    pub reason: Seq<char>,
    pub message: Seq<char>,
}

impl DeepView for RefFault {
    type V = RefFaultView;

    open spec fn deep_view(&self) -> RefFaultView {
        RefFaultView {
            reason: self.reason.deep_view(),
            message: self.message.deep_view(),
        }
    }
}

// ---------------------------------------------------------------------------
// Verdicts on routes
// ---------------------------------------------------------------------------

/// Everything but the routes that verdicts rest on.
pub struct CollectView {
    pub gateway_name: Seq<char>,
    pub gateway_ns: Seq<char>,
    pub listeners: Seq<GatewayListenersView>,
    pub namespace_labels: Map<Seq<char>, Map<Seq<char>, Seq<char>>>,
    pub reference_grants: Seq<ReferenceGrantView>,
    pub known_services: Seq<(Seq<char>, Seq<char>)>,
}

/// Inputs that all routes of one pass share.
pub struct RouteCollectCtx<'a> {
    pub gateway_name: &'a str,
    pub gateway_ns: &'a str,
    pub listeners: &'a Vec<GatewayListeners>,
    pub namespace_labels: &'a Table<String, Table<String, String>>,
    pub reference_grants: &'a Vec<ReferenceGrant>,
    pub known_services: &'a Vec<(String, String)>,
}

impl<'a> View for RouteCollectCtx<'a> {
    type V = CollectView;

    open spec fn view(&self) -> CollectView {
        CollectView {
            gateway_name: self.gateway_name@,
            gateway_ns: self.gateway_ns@,
            listeners: self.listeners.deep_view(),
            namespace_labels: self.namespace_labels.deep_view(),
            reference_grants: self.reference_grants.deep_view(),
            known_services: self.known_services.deep_view(),
        }
    }
}

/// What the verdict on a parent reference says, and which reference it is on.
#[verifier::ext_equal]
pub struct ParentVerdictView {
    pub section_name: Option<Seq<char>>,
    pub port: Option<i32>,
    pub result: Result<Seq<Seq<char>>, Rejection>,
}

/// The verdict on one parent reference.
pub struct ParentVerdict {
    pub section_name: Option<String>,
    pub port: Option<i32>,
    pub result: Result<Vec<String>, Rejection>,
}

impl DeepView for ParentVerdict {
    type V = ParentVerdictView;

    open spec fn deep_view(&self) -> ParentVerdictView {
        ParentVerdictView {
            section_name: self.section_name.deep_view(),
            port: self.port,
            result: reference_grants::verdict_view(self.result),
        }
    }
}

/// What a route brings to the question which listeners take it.
pub open spec fn traits_of<R: GatewayRoute>(cx: CollectView, route: R::V) -> RouteTraits {
    RouteTraits {
        gateway_ns: cx.gateway_ns,
        route_ns: namespace_of(R::spec_metadata(route)),
        kind: R::spec_kind(),
        hostnames: R::spec_hostnames(route),
        namespace_labels: cx.namespace_labels,
    }
}

/// The verdict on the reference `pr` of a route.
pub open spec fn verdict_on<R: GatewayRoute>(
    cx: CollectView,
    route: R::V,
    pr: RouteParentRefView,
) -> ParentVerdictView {
    ParentVerdictView {
        section_name: pr.section_name,
        port: pr.port,
        result: reference_grants::verdict(cx.listeners, pr, traits_of::<R>(cx, route)),
    }
}

/// The references of a route to the Gateway, in order.
pub open spec fn gateway_refs<R: GatewayRoute>(cx: CollectView, route: R::V) -> Seq<
    RouteParentRefView,
> {
    parent_ref::matching_refs(
        parent_ref::refs_of(R::spec_parent_refs(route)),
        cx.gateway_name,
        cx.gateway_ns,
    )
}

/// The verdicts on the references of a route to the Gateway, in order.
pub open spec fn verdicts<R: GatewayRoute>(cx: CollectView, route: R::V) -> Seq<ParentVerdictView> {
    gateway_refs::<R>(cx, route).map_values(
        |pr: RouteParentRefView| verdict_on::<R>(cx, route, pr),
    )
}

/// Whether some listener takes the route.
pub open spec fn taken<R: GatewayRoute>(cx: CollectView, route: R::V) -> bool {
    exists|i: int|
        0 <= i < verdicts::<R>(cx, route).len() && (#[trigger] verdicts::<R>(
            cx,
            route,
        )[i]).result is Ok
}

/// What is wrong with a backend reference of a route of kind `kind` in `ns`:
/// it names something other than a Service, it crosses namespaces without a
/// grant, or its Service is not known. A backend name that is not of the form
/// of a Service's is not looked into.
pub open spec fn ref_fault(
    cx: CollectView,
    kind: Seq<char>,
    ns: Seq<char>,
    b: BackendRefView,
) -> Option<RefFaultView> {
    if (b.group.len() > 0 && b.group != "core"@) || (b.kind != "Service"@ && b.kind.len() > 0) {
        Some(
            RefFaultView {
                reason: "InvalidKind"@,
                message: "Unsupported backend ref group/kind: "@ + b.group + "/"@ + b.kind,
            },
        )
    } else {
        match converters::parsed_dns_name(b.name) {
            None => None,
            Some((svc, svc_ns)) => {
                if !reference_grants::reference_allowed(
                    cx.reference_grants,
                    RefSource { group: GATEWAY_GROUP@, kind, namespace: ns },
                    RefTarget { group: ""@, kind: "Service"@, namespace: svc_ns, name: svc },
                ) {
                    Some(
                        RefFaultView {
                            reason: "RefNotPermitted"@,
                            message: "Cross-namespace reference to "@ + svc + "."@ + svc_ns
                                + " not allowed by ReferenceGrant"@,
                        },
                    )
                } else if !cx.known_services.contains((svc, svc_ns)) {
                    Some(
                        RefFaultView {
                            reason: "BackendNotFound"@,
                            message: "Backend service "@ + svc + "."@ + svc_ns + " not found"@,
                        },
                    )
                } else {
                    None
                }
            },
        }
    }
}

/// The faults among backend references, in order.
pub open spec fn ref_faults(
    cx: CollectView,
    kind: Seq<char>,
    ns: Seq<char>,
    refs: Seq<BackendRefView>,
) -> Seq<RefFaultView> {
    refs.filter_map(|b: BackendRefView| ref_fault(cx, kind, ns, b))
}

/// The name and port of each faulty reference, in order.
pub open spec fn faulty_keys(
    cx: CollectView,
    kind: Seq<char>,
    ns: Seq<char>,
    refs: Seq<BackendRefView>,
) -> Seq<(Seq<char>, u16)> {
    refs.filter_map(
        |b: BackendRefView|
            if ref_fault(cx, kind, ns, b) is Some {
                Some((b.name, b.port))
            } else {
                None
            },
    )
}

/// How the references of a route were resolved.
#[verifier::ext_equal]
pub struct RefsOutcomeView {
    pub resolved: bool,
    pub reason: Seq<char>,
    pub message: Seq<char>,
}

/// The outcome of a list of faults: the last one gives the reason, and all of
/// them the message.
pub open spec fn refs_outcome(faults: Seq<RefFaultView>) -> RefsOutcomeView {
    if faults.len() == 0 {
        RefsOutcomeView {
            resolved: true,
            reason: "ResolvedRefs"@,
            message: "All references resolved"@,
        }
    } else {
        RefsOutcomeView {
            resolved: false,
            reason: faults.last().reason,
            message: text::join(faults.map_values(|f: RefFaultView| f.message), "; "@),
        }
    }
}

/// What became of a route that some listener takes.
pub enum ConversionView {
    Converted { refs: RefsOutcomeView },
    Failed { message: Seq<char> },
}

/// All faults of a configuration, those of its backends first.
pub open spec fn config_faults<R: GatewayRoute>(
    cx: CollectView,
    route: R::V,
    c: <R::Config as DeepView>::V,
) -> Seq<RefFaultView> {
    let ns = namespace_of(R::spec_metadata(route));
    ref_faults(cx, R::spec_kind(), ns, R::spec_backend_refs(c)) + ref_faults(
        cx,
        R::spec_kind(),
        ns,
        R::spec_mirror_refs(c),
    )
}

/// What becomes of the route when it is converted.
pub open spec fn conversion<R: GatewayRoute>(cx: CollectView, route: R::V) -> ConversionView {
    match R::spec_convert(route, cx.gateway_name, cx.gateway_ns) {
        Ok(c) => ConversionView::Converted { refs: refs_outcome(config_faults::<R>(cx, route, c)) },
        Err(e) => ConversionView::Failed { message: "Conversion failed: "@ + e.message() },
    }
}

/// The message that goes with a rejection.
pub open spec fn rejection_message(r: Rejection) -> Seq<char> {
    match r {
        Rejection::NoMatchingListenerHostname =>
            "Route hostnames do not intersect with any listener hostname"@,
        Rejection::NoMatchingParent => "No matching listener found for route parentRef"@,
        Rejection::NotAllowedByListeners =>
            "Route not allowed by any listener policy (namespace/hostname/kind)"@,
    }
}

/// The identity of a route in its status.
#[verifier::ext_equal]
pub struct RouteIdView {
    pub name: Seq<char>,
    pub namespace: Seq<char>,
    pub kind: Seq<char>,
    pub generation: Option<i64>,
}

/// The identity of a route.
pub open spec fn id_of<R: GatewayRoute>(route: R::V) -> RouteIdView {
    RouteIdView {
        name: text::or_text(R::spec_metadata(route).name, "unknown"@),
        namespace: namespace_of(R::spec_metadata(route)),
        kind: R::spec_kind(),
        generation: R::spec_metadata(route).generation,
    }
}

/// The status entry of one parent reference. A reference that its listeners
/// reject keeps its own reason, whatever becomes of the route.
pub open spec fn status_entry(
    id: RouteIdView,
    v: ParentVerdictView,
    conversion: ConversionView,
) -> RouteAcceptanceView {
    match v.result {
        Err(rejection) => RouteAcceptanceView {
            name: id.name,
            namespace: id.namespace,
            kind: id.kind,
            accepted: false,
            accepted_reason: rejection.spec_reason(),
            message: rejection_message(rejection),
            refs_resolved: true,
            refs_reason: "ResolvedRefs"@,
            refs_message: "All references resolved"@,
            generation: id.generation,
            section_name: v.section_name,
            port: v.port,
            listener_names: Seq::empty(),
        },
        Ok(names) => match conversion {
            ConversionView::Converted { refs } => RouteAcceptanceView {
                name: id.name,
                namespace: id.namespace,
                kind: id.kind,
                accepted: true,
                accepted_reason: "Accepted"@,
                message: "Accepted"@,
                refs_resolved: refs.resolved,
                refs_reason: refs.reason,
                refs_message: refs.message,
                generation: id.generation,
                section_name: v.section_name,
                port: v.port,
                listener_names: names,
            },
            ConversionView::Failed { message } => RouteAcceptanceView {
                name: id.name,
                namespace: id.namespace,
                kind: id.kind,
                accepted: false,
                accepted_reason: "InvalidRoute"@,
                message,
                refs_resolved: false,
                refs_reason: "InvalidKind"@,
                refs_message: message,
                generation: id.generation,
                section_name: v.section_name,
                port: v.port,
                listener_names: Seq::empty(),
            },
        },
    }
}

/// The status entries of a route: one for each of its references to the
/// Gateway, in order.
pub open spec fn route_statuses<R: GatewayRoute>(cx: CollectView, route: R::V) -> Seq<
    RouteAcceptanceView,
> {
    verdicts::<R>(cx, route).map_values(
        |v: ParentVerdictView| status_entry(id_of::<R>(route), v, conversion::<R>(cx, route)),
    )
}

/// The configuration of a route that some listener takes, without its faulty
/// backends and mirrors.
pub open spec fn route_config<R: GatewayRoute>(cx: CollectView, route: R::V) -> Option<
    <R::Config as DeepView>::V,
> {
    if taken::<R>(cx, route) {
        match R::spec_convert(route, cx.gateway_name, cx.gateway_ns) {
            Ok(c) => {
                let ns = namespace_of(R::spec_metadata(route));
                Some(
                    R::spec_without_mirrors(
                        R::spec_without_backends(
                            c,
                            faulty_keys(cx, R::spec_kind(), ns, R::spec_backend_refs(c)),
                        ),
                        faulty_keys(cx, R::spec_kind(), ns, R::spec_mirror_refs(c)),
                    ),
                )
            },
            Err(_) => None,
        }
    } else {
        None
    }
}

/// The configurations that a list of routes contributes, in order.
pub open spec fn collected_configs<R: GatewayRoute>(cx: CollectView, routes: Seq<R::V>) -> Seq<
    <R::Config as DeepView>::V,
> {
    routes.filter_map(|route: R::V| route_config::<R>(cx, route))
}

/// The status entries of a list of routes, in order.
pub open spec fn collected_statuses<R: GatewayRoute>(cx: CollectView, routes: Seq<R::V>) -> Seq<
    RouteAcceptanceView,
> {
    routes.flat_map(|route: R::V| route_statuses::<R>(cx, route))
}

fn parent_verdicts<R: GatewayRoute>(route: &R, cx: &RouteCollectCtx) -> (r: Vec<ParentVerdict>)
    ensures
        r.deep_view() == verdicts::<R>(cx@, route.deep_view()),
{
    let mut out: Vec<ParentVerdict> = Vec::new();
    let route_ns = route.route_namespace();
    let hostnames = route.hostnames();
    let ghost f = |pr: RouteParentRefView| verdict_on::<R>(cx@, route.deep_view(), pr);
    match route.parent_refs() {
        None => {
            assert(out.deep_view() =~= verdicts::<R>(cx@, route.deep_view()));
        },
        Some(refs) => {
            let ghost v = refs.deep_view();
            let mut i: usize = 0;
            assert(out.deep_view() =~= parent_ref::matching_refs(
                v.take(0),
                cx@.gateway_name,
                cx@.gateway_ns,
            ).map_values(f));
            while i < refs.len()
                invariant
                    i <= refs.len(),
                    v == refs.deep_view(),
                    R::spec_parent_refs(route.deep_view()) == Some(v),
                    route_ns@ == namespace_of(R::spec_metadata(route.deep_view())),
                    hostnames.deep_view() == R::spec_hostnames(route.deep_view()),
                    f == (|pr: RouteParentRefView| verdict_on::<R>(cx@, route.deep_view(), pr)),
                    out.deep_view() == parent_ref::matching_refs(
                        v.take(i as int),
                        cx@.gateway_name,
                        cx@.gateway_ns,
                    ).map_values(f),
                decreases refs.len() - i,
            {
                let pr = &refs[i];
                let ghost before = out.deep_view();
                proof {
                    assert(v.take(i + 1).drop_last() =~= v.take(i as int));
                    assert(v.take(i + 1).last() == pr.deep_view());
                }
                if parent_ref_matches_gateway(pr, cx.gateway_name, cx.gateway_ns) {
                    let result = listeners_for_parent_ref(
                        pr,
                        cx.listeners,
                        cx.gateway_ns,
                        route_ns,
                        R::kind(),
                        &hostnames,
                        cx.namespace_labels,
                    );
                    let entry = ParentVerdict {
                        section_name: pr.section_name.dup(),
                        port: pr.port,
                        result,
                    };
                    assert(entry.deep_view() == f(pr.deep_view()));
                    out.push(entry);
                    assert(out.deep_view() =~= before.push(f(pr.deep_view())));
                    assert(out.deep_view() =~= parent_ref::matching_refs(
                        v.take(i + 1),
                        cx@.gateway_name,
                        cx@.gateway_ns,
                    ).map_values(f));
                }
                i += 1;
            }
            assert(v.take(v.len() as int) =~= v);
            assert(out.deep_view() =~= verdicts::<R>(cx@, route.deep_view()));
        },
    }
    out
}

fn check_ref(b: &BackendRef, kind: &str, route_ns: &str, cx: &RouteCollectCtx) -> (r: Option<
    RefFault,
>)
    ensures
        r.deep_view() == ref_fault(cx@, kind@, route_ns@, b.deep_view()),
{
    let group_ok = b.group.as_str().is_empty() || str_eq(b.group.as_str(), "core");
    let kind_ok = b.kind.as_str().is_empty() || str_eq(b.kind.as_str(), "Service");
    if !group_ok || !kind_ok {
        let mut message = "Unsupported backend ref group/kind: ".to_owned();
        message.append(b.group.as_str());
        message.append("/");
        message.append(b.kind.as_str());
        return Some(RefFault { reason: "InvalidKind", message });
    }
    match parse_backend_dns_name(b.name.as_str()) {
        None => None,
        Some((svc, svc_ns)) => {
            if !is_reference_allowed(
                cx.reference_grants,
                GATEWAY_GROUP,
                kind,
                route_ns,
                "",
                "Service",
                svc_ns.as_str(),
                svc.as_str(),
            ) {
                let mut message = "Cross-namespace reference to ".to_owned();
                message.append(svc.as_str());
                message.append(".");
                message.append(svc_ns.as_str());
                message.append(" not allowed by ReferenceGrant");
                return Some(RefFault { reason: "RefNotPermitted", message });
            }
            let key = (svc, svc_ns);
            if !contains_same(cx.known_services, &key) {
                let mut message = "Backend service ".to_owned();
                message.append(key.0.as_str());
                message.append(".");
                message.append(key.1.as_str());
                message.append(" not found");
                return Some(RefFault { reason: "BackendNotFound", message });
            }
            None
        },
    }
}

/// The faults among the references and the keys of the faulty ones, added to
/// what is there.
fn check_refs(
    refs: &Vec<&BackendRef>,
    kind: &str,
    route_ns: &str,
    cx: &RouteCollectCtx,
    faults: &mut Vec<RefFault>,
) -> (invalid: Vec<(String, u16)>)
    ensures
        final(faults).deep_view() == old(faults).deep_view() + ref_faults(
            cx@,
            kind@,
            route_ns@,
            refs.deep_view(),
        ),
        invalid.deep_view() == faulty_keys(cx@, kind@, route_ns@, refs.deep_view()),
{
    let mut invalid: Vec<(String, u16)> = Vec::new();
    let ghost start = faults.deep_view();
    let ghost s = refs.deep_view();
    let ghost f = |b: BackendRefView| ref_fault(cx@, kind@, route_ns@, b);
    let ghost k = |b: BackendRefView|
        if ref_fault(cx@, kind@, route_ns@, b) is Some {
            Some((b.name, b.port))
        } else {
            None
        };
    let mut i: usize = 0;
    proof {
        assert(faults.deep_view() =~= start + s.take(0).filter_map(f));
        assert(invalid.deep_view() =~= s.take(0).filter_map(k));
    }
    while i < refs.len()
        invariant
            i <= refs.len(),
            s == refs.deep_view(),
            f == (|b: BackendRefView| ref_fault(cx@, kind@, route_ns@, b)),
            k == (|b: BackendRefView|
                if ref_fault(cx@, kind@, route_ns@, b) is Some {
                    Some((b.name, b.port))
                } else {
                    None
                }),
            faults.deep_view() == start + s.take(i as int).filter_map(f),
            invalid.deep_view() == s.take(i as int).filter_map(k),
        decreases refs.len() - i,
    {
        let b = refs[i];
        let ghost faults0 = faults.deep_view();
        let ghost invalid0 = invalid.deep_view();
        proof {
            assert(s.take(i + 1).drop_last() =~= s.take(i as int));
            assert(s.take(i + 1).last() == b.deep_view());
        }
        if let Some(fault) = check_ref(b, kind, route_ns, cx) {
            faults.push(fault);
            invalid.push((b.name.clone(), b.port));
            proof {
                assert(faults.deep_view() =~= faults0.push(fault.deep_view()));
                assert(invalid.deep_view() =~= invalid0.push((b.deep_view().name, b.port)));
                assert(faults.deep_view() =~= start + s.take(i + 1).filter_map(f));
                assert(invalid.deep_view() =~= s.take(i + 1).filter_map(k));
            }
        }
        i += 1;
    }
    assert(s.take(s.len() as int) =~= s);
    invalid
}

/// What became of a route that some listener takes.
enum Conversion {
    Converted { resolved: bool, reason: &'static str, message: String },
    Failed { message: String },
}

impl Conversion {
    spec fn spec_view(self) -> ConversionView {
        match self {
            Conversion::Converted { resolved, reason, message } => ConversionView::Converted {
                refs: RefsOutcomeView { resolved, reason: reason@, message: message@ },
            },
            Conversion::Failed { message } => ConversionView::Failed { message: message@ },
        }
    }
}

fn summarize(faults: &Vec<RefFault>) -> (r: Conversion)
    ensures
        r.spec_view() == (ConversionView::Converted { refs: refs_outcome(faults.deep_view()) }),
{
    if faults.len() == 0 {
        return Conversion::Converted {
            resolved: true,
            reason: "ResolvedRefs",
            message: "All references resolved".to_owned(),
        };
    }
    let ghost g = |f: RefFaultView| f.message;
    let messages: Vec<String> = map_vec(
        faults,
        |f: &RefFault| -> (o: String)
            ensures
                o.deep_view() == g(f.deep_view())
            { f.message.clone() },
        Ghost(g),
    );
    proof {
        assert(messages.deep_view() =~= faults.deep_view().map_values(
            |f: RefFaultView| f.message,
        ));
    }
    let last = &faults[faults.len() - 1];
    assert(faults.deep_view().last() == last.deep_view());
    Conversion::Converted {
        resolved: false,
        reason: last.reason,
        message: join_strings(&messages, "; "),
    }
}

fn rejection_text(r: Rejection) -> (s: &'static str)
    ensures
        s@ == rejection_message(r),
{
    match r {
        Rejection::NoMatchingListenerHostname => {
            "Route hostnames do not intersect with any listener hostname"
        },
        Rejection::NoMatchingParent => "No matching listener found for route parentRef",
        Rejection::NotAllowedByListeners => {
            "Route not allowed by any listener policy (namespace/hostname/kind)"
        },
    }
}

fn build_status_entry(
    name: &str,
    namespace: &str,
    kind: &'static str,
    generation: Option<i64>,
    v: &ParentVerdict,
    conversion: &Conversion,
) -> (r: RouteAcceptance)
    ensures
        r.deep_view() == status_entry(
            (RouteIdView { name: name@, namespace: namespace@, kind: kind@, generation }),
            v.deep_view(),
            conversion.spec_view(),
        ),
{
    let none: Vec<String> = Vec::new();
    assert(none.deep_view() =~= Seq::<Seq<char>>::empty());
    match &v.result {
        Err(rejection) => RouteAcceptance {
            name: name.to_owned(),
            namespace: namespace.to_owned(),
            kind,
            accepted: false,
            accepted_reason: rejection.reason(),
            message: rejection_text(*rejection).to_owned(),
            refs_resolved: true,
            refs_reason: "ResolvedRefs",
            refs_message: "All references resolved".to_owned(),
            generation,
            section_name: v.section_name.dup(),
            port: v.port,
            listener_names: none,
        },
        Ok(names) => match conversion {
            Conversion::Converted { resolved, reason, message } => RouteAcceptance {
                name: name.to_owned(),
                namespace: namespace.to_owned(),
                kind,
                accepted: true,
                accepted_reason: "Accepted",
                message: "Accepted".to_owned(),
                refs_resolved: *resolved,
                refs_reason: *reason,
                refs_message: message.clone(),
                generation,
                section_name: v.section_name.dup(),
                port: v.port,
                listener_names: names.dup(),
            },
            Conversion::Failed { message } => RouteAcceptance {
                name: name.to_owned(),
                namespace: namespace.to_owned(),
                kind,
                accepted: false,
                accepted_reason: "InvalidRoute",
                message: message.clone(),
                refs_resolved: false,
                refs_reason: "InvalidKind",
                refs_message: message.clone(),
                generation,
                section_name: v.section_name.dup(),
                port: v.port,
                listener_names: none,
            },
        },
    }
}

/// Adds the status entry of each verdict.
fn push_statuses<R: GatewayRoute>(
    route: &R,
    verdicts: &Vec<ParentVerdict>,
    conversion: &Conversion,
    route_status: &mut Vec<RouteAcceptance>,
)
    ensures
        final(route_status).deep_view() == old(route_status).deep_view()
            + verdicts.deep_view().map_values(
            |v: ParentVerdictView|
                status_entry(id_of::<R>(route.deep_view()), v, conversion.spec_view()),
        ),
{
    let (name, generation) = route.identity();
    let namespace = route.route_namespace();
    let ghost start = route_status.deep_view();
    let ghost s = verdicts.deep_view();
    let ghost id = id_of::<R>(route.deep_view());
    let ghost g = |v: ParentVerdictView| status_entry(id, v, conversion.spec_view());
    let mut i: usize = 0;
    assert(route_status.deep_view() =~= start + s.take(0).map_values(g));
    while i < verdicts.len()
        invariant
            i <= verdicts.len(),
            s == verdicts.deep_view(),
            id == id_of::<R>(route.deep_view()),
            name@ == id.name,
            namespace@ == id.namespace,
            generation == id.generation,
            g == (|v: ParentVerdictView| status_entry(id, v, conversion.spec_view())),
            route_status.deep_view() == start + s.take(i as int).map_values(g),
        decreases verdicts.len() - i,
    {
        let ghost before = route_status.deep_view();
        let entry = build_status_entry(
            name,
            namespace,
            R::kind(),
            generation,
            &verdicts[i],
            conversion,
        );
        assert(entry.deep_view() == g(s[i as int]));
        route_status.push(entry);
        proof {
            assert(route_status.deep_view() =~= before.push(g(s[i as int])));
            assert(route_status.deep_view() =~= start + s.take(i + 1).map_values(g));
        }
        i += 1;
    }
    proof {
        assert(s.take(s.len() as int) =~= s);
        assert(s.map_values(g) =~= s.map_values(
            |v: ParentVerdictView|
                status_entry(id_of::<R>(route.deep_view()), v, conversion.spec_view()),
        ));
    }
}

fn any_taken(verdicts: &Vec<ParentVerdict>) -> (r: bool)
    ensures
        r == exists|i: int|
            0 <= i < verdicts.deep_view().len() && (#[trigger] verdicts.deep_view()[i]).result is Ok,
{
    let ghost s = verdicts.deep_view();
    let mut i: usize = 0;
    while i < verdicts.len()
        invariant
            i <= verdicts.len(),
            s == verdicts.deep_view(),
            forall|j: int| 0 <= j < i ==> (#[trigger] s[j]).result is Err,
        decreases verdicts.len() - i,
    {
        assert(s[i as int] == verdicts@[i as int].deep_view());
        if verdicts[i].result.is_ok() {
            return true;
        }
        i += 1;
    }
    false
}

/// Adds the status entries of a route and gives its configuration, if it has
/// one.
fn collect_route<R: GatewayRoute>(
    route: &R,
    cx: &RouteCollectCtx,
    route_status: &mut Vec<RouteAcceptance>,
) -> (r: Option<R::Config>)
    ensures
        r.deep_view() == route_config::<R>(cx@, route.deep_view()),
        final(route_status).deep_view() == old(route_status).deep_view() + route_statuses::<R>(
            cx@,
            route.deep_view(),
        ),
{
    let ghost v = route.deep_view();
    let ghost start = route_status.deep_view();
    if !route_targets_gateway(route.parent_refs(), cx.gateway_name, cx.gateway_ns) {
        proof {
            let refs = parent_ref::refs_of(R::spec_parent_refs(v));
            parent_ref::lemma_matching_refs_nonempty(refs, cx@.gateway_name, cx@.gateway_ns);
            assert(!parent_ref::targets_gateway(Some(refs), cx@.gateway_name, cx@.gateway_ns)) by {
                assert(parent_ref::refs_of(Some(refs)) == refs);
            }
            assert(verdicts::<R>(cx@, v).len() == 0);
            assert(route_statuses::<R>(cx@, v) =~= Seq::empty());
            assert(start + route_statuses::<R>(cx@, v) =~= start);
        }
        return None;
    }
    let per_parent = parent_verdicts(route, cx);
    if !any_taken(&per_parent) {
        let unused = Conversion::Failed { message: String::new() };
        push_statuses(route, &per_parent, &unused, route_status);
        proof {
            let s = verdicts::<R>(cx@, v);
            let id = id_of::<R>(v);
            assert forall|i: int| 0 <= i < s.len() implies status_entry(
                id,
                #[trigger] s[i],
                unused.spec_view(),
            ) == status_entry(id, s[i], conversion::<R>(cx@, v)) by {
                assert(s[i].result is Err);
            }
            assert(s.map_values(|x: ParentVerdictView| status_entry(id, x, unused.spec_view()))
                =~= route_statuses::<R>(cx@, v));
        }
        return None;
    }
    match route.convert(cx.gateway_name, cx.gateway_ns) {
        Ok(config) => {
            let mut config = config;
            let ghost c = config.deep_view();
            let route_ns = route.route_namespace();
            let mut faults: Vec<RefFault> = Vec::new();
            assert(faults.deep_view() =~= Seq::<RefFaultView>::empty());
            let backends = R::backend_refs(&config);
            let invalid_backends = check_refs(&backends, R::kind(), route_ns, cx, &mut faults);
            let mirrors = R::mirror_backend_refs(&config);
            let invalid_mirrors = check_refs(&mirrors, R::kind(), route_ns, cx, &mut faults);
            assert(faults.deep_view() =~= config_faults::<R>(cx@, v, c));
            R::remove_invalid_backends(&mut config, &invalid_backends);
            R::remove_invalid_mirrors(&mut config, &invalid_mirrors);
            let outcome = summarize(&faults);
            push_statuses(route, &per_parent, &outcome, route_status);
            assert(outcome.spec_view() == conversion::<R>(cx@, v));
            Some(config)
        },
        Err(e) => {
            let mut message = "Conversion failed: ".to_owned();
            message.append(e.message().as_str());
            let outcome = Conversion::Failed { message };
            assert(outcome.spec_view() == conversion::<R>(cx@, v));
            push_statuses(route, &per_parent, &outcome, route_status);
            None
        },
    }
}

/// The configurations that the routes contribute to the Gateway. Each parent
/// reference to the Gateway is judged by itself and gets a status entry of its
/// own; backends that may not be used are taken out of the configuration.
pub fn collect_routes<R: GatewayRoute>(
    routes: &Vec<R>,
    cx: &RouteCollectCtx,
    route_status: &mut Vec<RouteAcceptance>,
) -> (r: Vec<R::Config>)
    ensures
        r.deep_view() == collected_configs::<R>(cx@, routes.deep_view()),
        final(route_status).deep_view() == old(route_status).deep_view() + collected_statuses::<R>(
            cx@,
            routes.deep_view(),
        ),
{
    let mut configs: Vec<R::Config> = Vec::new();
    let ghost s = routes.deep_view();
    let ghost start = route_status.deep_view();
    let ghost c = |route: R::V| route_config::<R>(cx@, route);
    let ghost t = |route: R::V| route_statuses::<R>(cx@, route);
    let mut i: usize = 0;
    proof {
        reveal_with_fuel(Seq::flatten, 2);
        assert(s.take(0).map_values(t) =~= Seq::empty());
        assert(configs.deep_view() =~= s.take(0).filter_map(c));
        assert(route_status.deep_view() =~= start + s.take(0).flat_map(t));
    }
    while i < routes.len()
        invariant
            i <= routes.len(),
            s == routes.deep_view(),
            c == (|route: R::V| route_config::<R>(cx@, route)),
            t == (|route: R::V| route_statuses::<R>(cx@, route)),
            configs.deep_view() == s.take(i as int).filter_map(c),
            route_status.deep_view() == start + s.take(i as int).flat_map(t),
        decreases routes.len() - i,
    {
        let ghost before = configs.deep_view();
        proof {
            assert(s.take(i + 1).drop_last() =~= s.take(i as int));
            assert(s.take(i + 1).last() == routes@[i as int].deep_view());
            s.take(i as int).lemma_flat_map_push(t, s[i as int]);
            assert(s.take(i as int).push(s[i as int]) =~= s.take(i + 1));
        }
        if let Some(config) = collect_route(&routes[i], cx, route_status) {
            configs.push(config);
            assert(configs.deep_view() =~= before + seq![config.deep_view()]);
        }
        assert(route_status.deep_view() =~= start + s.take(i + 1).flat_map(t));
        i += 1;
    }
    assert(s.take(s.len() as int) =~= s);
    configs
}

/// The cluster objects that one pass works on.
#[derive(Clone, Debug, Default, PartialEq, Eq)]
pub struct ClusterSnapshot {
    pub http_routes: Vec<HTTPRoute>,
    pub tcp_routes: Vec<TCPRoute>,
    pub tls_routes: Vec<TLSRoute>,
    pub udp_routes: Vec<UDPRoute>,
    /// The labels of each namespace.
    pub namespace_labels: Table<String, Table<String, String>>,
    pub reference_grants: Vec<ReferenceGrant>,
    pub services: Vec<Service>,
}

/// What a [`ClusterSnapshot`] denotes.
#[verifier::ext_equal]
pub struct ClusterSnapshotView {
    pub http_routes: Seq<HTTPRouteView>,
    pub tcp_routes: Seq<TCPRouteView>,
    pub tls_routes: Seq<TLSRouteView>,
    pub udp_routes: Seq<UDPRouteView>,
    pub namespace_labels: Map<Seq<char>, Map<Seq<char>, Seq<char>>>,
    pub reference_grants: Seq<ReferenceGrantView>,
    pub services: Seq<ServiceView>,
}

impl DeepView for ClusterSnapshot {
    type V = ClusterSnapshotView;

    open spec fn deep_view(&self) -> ClusterSnapshotView {
        ClusterSnapshotView {
            http_routes: self.http_routes.deep_view(),
            tcp_routes: self.tcp_routes.deep_view(),
            tls_routes: self.tls_routes.deep_view(),
            udp_routes: self.udp_routes.deep_view(),
            namespace_labels: self.namespace_labels.deep_view(),
            reference_grants: self.reference_grants.deep_view(),
            services: self.services.deep_view(),
        }
    }
}

/// A configuration, and a verdict for each parent reference.
#[derive(Clone, Debug, PartialEq, Eq)]
pub struct ReconcileResult {
    pub config: PortailConfig,
    pub route_status: Vec<RouteAcceptance>,
}

/// What a [`ReconcileResult`] denotes.
#[verifier::ext_equal]
pub struct ReconcileResultView {
    pub config: PortailConfigView,
    pub route_status: Seq<RouteAcceptanceView>,
}

impl DeepView for ReconcileResult {
    type V = ReconcileResultView;

    open spec fn deep_view(&self) -> ReconcileResultView {
        ReconcileResultView {
            config: self.config.deep_view(),
            route_status: self.route_status.deep_view(),
        }
    }
}

// ---------------------------------------------------------------------------
// The fronting Service
// ---------------------------------------------------------------------------

/// The label by which a Service names the Gateway that it fronts.
pub const GATEWAY_LABEL: &'static str = "portail.epheo.eu/gateway";

impl ServiceView {
    /// Whether the Service fronts the Gateway `name` in `ns`.
    pub open spec fn fronts(self, ns: Seq<char>, name: Seq<char>) -> bool {
        &&& self.metadata.namespace == Some(ns)
        &&& self.metadata.labels is Some
        &&& self.metadata.labels->0.dom().contains(GATEWAY_LABEL@)
        &&& self.metadata.labels->0[GATEWAY_LABEL@] == name
    }

    /// The ports of the Service.
    pub open spec fn port_list(self) -> Seq<ServicePortView> {
        match self.spec {
            Some(s) => match s.ports {
                Some(p) => p,
                None => Seq::empty(),
            },
            None => Seq::empty(),
        }
    }
}

/// The first Service that fronts the Gateway.
pub open spec fn fronting_service(
    services: Seq<ServiceView>,
    ns: Seq<char>,
    name: Seq<char>,
) -> Option<ServiceView>
    decreases services.len(),
{
    if services.len() == 0 {
        None
    } else if services.first().fronts(ns, name) {
        Some(services.first())
    } else {
        fronting_service(services.drop_first(), ns, name)
    }
}

/// Whether a number is a port.
pub open spec fn is_port(n: i32) -> bool {
    0 <= n <= 65535
}

impl ServicePortView {
    /// The published port and the number of its target, where both are ports.
    pub open spec fn numeric_target(self) -> Option<(u16, u16)> {
        match self.target_port {
            Some(IntOrStringView::Int(t)) => if is_port(self.port) && is_port(t) {
                Some((self.port as u16, t as u16))
            } else {
                None
            },
            _ => None,
        }
    }
}

/// The target ports of published ports; of two entries for one published port
/// the later counts.
pub open spec fn target_ports(ports: Seq<ServicePortView>) -> Map<u16, u16>
    decreases ports.len(),
{
    if ports.len() == 0 {
        Map::empty()
    } else {
        let rest = target_ports(ports.drop_last());
        match ports.last().numeric_target() {
            Some((published, target)) => rest.insert(published, target),
            None => rest,
        }
    }
}

/// The target ports of the Service that fronts the Gateway; none where no
/// Service does.
pub open spec fn listener_target_ports(
    services: Seq<ServiceView>,
    ns: Seq<char>,
    name: Seq<char>,
) -> Map<u16, u16> {
    match fronting_service(services, ns, name) {
        Some(svc) => target_ports(svc.port_list()),
        None => Map::empty(),
    }
}

fn service_fronts(svc: &Service, gw_ns: &str, gw_name: &str) -> (r: bool)
    ensures
        r == svc.deep_view().fronts(gw_ns@, gw_name@),
{
    let in_ns = match &svc.metadata.namespace {
        Some(ns) => str_eq(ns.as_str(), gw_ns),
        None => false,
    };
    if !in_ns {
        return false;
    }
    match &svc.metadata.labels {
        Some(labels) => {
            let key = GATEWAY_LABEL.to_owned();
            match labels.get(&key) {
                Some(v) => str_eq(v.as_str(), gw_name),
                None => false,
            }
        },
        None => false,
    }
}

/// The target port of each published port of the Gateway `gw_name` in `gw_ns`,
/// by the first Service that carries its label. Ports without a numeric target
/// are left out; so is everything where no Service fronts the Gateway.
pub fn resolve_listener_target_ports(services: &Vec<Service>, gw_ns: &str, gw_name: &str) -> (r:
    HashMap<u16, u16>)
    ensures
        r@ == listener_target_ports(services.deep_view(), gw_ns@, gw_name@),
{
    broadcast use vstd::std_specs::hash::group_hash_axioms;

    let mut map: HashMap<u16, u16> = HashMap::new();
    let ghost s = services.deep_view();
    let mut i: usize = 0;
    proof {
        assert(s.skip(0) =~= s);
    }
    while i < services.len()
        invariant
            i <= services.len(),
            s == services.deep_view(),
            map@ == Map::<u16, u16>::empty(),
            fronting_service(s, gw_ns@, gw_name@) == fronting_service(
                s.skip(i as int),
                gw_ns@,
                gw_name@,
            ),
        decreases services.len() - i,
    {
        let svc = &services[i];
        proof {
            assert(s.skip(i as int).first() == svc.deep_view());
            assert(s.skip(i as int).drop_first() =~= s.skip(i + 1));
        }
        if service_fronts(svc, gw_ns, gw_name) {
            let ghost p = svc.deep_view().port_list();
            assert(listener_target_ports(s, gw_ns@, gw_name@) == target_ports(p));
            if let Some(spec) = &svc.spec {
                if let Some(ports) = &spec.ports {
                    let mut k: usize = 0;
                    assert(p =~= ports.deep_view());
                    assert(p.take(0) =~= Seq::empty());
                    while k < ports.len()
                        invariant
                            k <= ports.len(),
                            p == ports.deep_view(),
                            map@ == target_ports(p.take(k as int)),
                        decreases ports.len() - k,
                    {
                        let sp = &ports[k];
                        proof {
                            assert(p.take(k + 1).drop_last() =~= p.take(k as int));
                            assert(p.take(k + 1).last() == sp.deep_view());
                        }
                        if let Some(IntOrString::Int(t)) = &sp.target_port {
                            let t: i32 = *t;
                            if 0 <= sp.port && sp.port <= 65535 && 0 <= t && t <= 65535 {
                                map.insert(sp.port as u16, t as u16);
                            }
                        }
                        k += 1;
                    }
                    assert(p.take(p.len() as int) =~= p);
                }
            }
            return map;
        }
        i += 1;
    }
    map
}

// ---------------------------------------------------------------------------
// Reconciliation
// ---------------------------------------------------------------------------

/// The listeners with the target ports that the fronting Service gives them.
pub open spec fn with_target_ports(listeners: Seq<ListenerConfigView>, targets: Map<u16, u16>) -> Seq<
    ListenerConfigView,
> {
    listeners.map_values(
        |l: ListenerConfigView|
            ListenerConfigView {
                target_port: if targets.dom().contains(l.port) {
                    Some(targets[l.port])
                } else {
                    None
                },
                ..l
            },
    )
}

/// What verdicts on the routes of a Gateway rest on.
pub open spec fn collect_view(
    gateway: GatewayView,
    snapshot: ClusterSnapshotView,
    services: ServiceStateView,
) -> CollectView {
    CollectView {
        gateway_name: text::or_text(gateway.metadata.name, "default"@),
        gateway_ns: namespace_of(gateway.metadata),
        listeners: gateway.spec.listeners,
        namespace_labels: snapshot.namespace_labels,
        reference_grants: snapshot.reference_grants,
        known_services: services.known_services,
    }
}

/// The outcome of a pass for a Gateway.
pub open spec fn reconciled(
    gateway: GatewayView,
    snapshot: ClusterSnapshotView,
    certs: CertDataView,
    services: ServiceStateView,
) -> Result<ReconcileResultView, ConvertErrorView> {
    let cx = collect_view(gateway, snapshot, services);
    match gateway.converted(certs) {
        Err(e) => Err(e),
        Ok(g) => Ok(
            ReconcileResultView {
                config: PortailConfigView {
                    gateway: GatewayConfigView {
                        listeners: with_target_ports(
                            g.listeners,
                            listener_target_ports(
                                snapshot.services,
                                cx.gateway_ns,
                                cx.gateway_name,
                            ),
                        ),
                        ..g
                    },
                    http_routes: collected_configs::<HTTPRoute>(cx, snapshot.http_routes),
                    tcp_routes: collected_configs::<TCPRoute>(cx, snapshot.tcp_routes),
                    tls_routes: collected_configs::<TLSRoute>(cx, snapshot.tls_routes),
                    udp_routes: collected_configs::<UDPRoute>(cx, snapshot.udp_routes),
                    endpoint_overrides: services.endpoint_overrides,
                    app_protocol_overrides: services.app_protocol_overrides,
                    headless_target_ports: services.headless_target_ports,
                },
                route_status: collected_statuses::<HTTPRoute>(cx, snapshot.http_routes)
                    + collected_statuses::<TCPRoute>(cx, snapshot.tcp_routes)
                    + collected_statuses::<TLSRoute>(cx, snapshot.tls_routes)
                    + collected_statuses::<UDPRoute>(cx, snapshot.udp_routes),
            },
        ),
    }
}

fn set_target_ports(listeners: &Vec<ListenerConfig>, targets: &HashMap<u16, u16>) -> (r: Vec<
    ListenerConfig,
>)
    ensures
        r.deep_view() == with_target_ports(listeners.deep_view(), targets@),
{
    broadcast use vstd::std_specs::hash::group_hash_axioms;

    let mut out: Vec<ListenerConfig> = Vec::new();
    let mut i: usize = 0;
    let ghost want = with_target_ports(listeners.deep_view(), targets@);
    while i < listeners.len()
        invariant
            i <= listeners.len(),
            want == with_target_ports(listeners.deep_view(), targets@),
            out@.len() == i,
            forall|j: int| 0 <= j < i ==> (#[trigger] out@[j]).deep_view() == want[j],
        decreases listeners.len() - i,
    {
        let mut l = listeners[i].dup();
        l.target_port = match targets.get(&l.port) {
            Some(t) => Some(*t),
            None => None,
        };
        assert(l.deep_view() == want[i as int]);
        out.push(l);
        i += 1;
    }
    assert(out.deep_view() =~= want);
    out
}

/// The configuration of a Gateway and the verdicts on the routes that name it.
pub fn reconcile_to_config(
    gateway: &Gateway,
    snapshot: &ClusterSnapshot,
    cert_data: &CertData,
    services: &ServiceState,
) -> (r: Result<ReconcileResult, ConvertError>)
    ensures
        converters::outcome(r) == reconciled(
            gateway.deep_view(),
            snapshot.deep_view(),
            cert_data.deep_view(),
            services.deep_view(),
        ),
{
    let gateway_config = match convert_gateway(gateway, cert_data) {
        Ok(g) => g,
        Err(e) => return Err(e),
    };
    let gateway_name = opt_or(&gateway.metadata.name, "default");
    let gateway_ns = opt_or(&gateway.metadata.namespace, "default");
    let targets = resolve_listener_target_ports(&snapshot.services, gateway_ns, gateway_name);
    let listeners = set_target_ports(&gateway_config.listeners, &targets);
    let mut gateway_config = gateway_config;
    gateway_config.listeners = listeners;

    let cx = RouteCollectCtx {
        gateway_name,
        gateway_ns,
        listeners: &gateway.spec.listeners,
        namespace_labels: &snapshot.namespace_labels,
        reference_grants: &snapshot.reference_grants,
        known_services: &services.known_services,
    };
    assert(cx@ == collect_view(gateway.deep_view(), snapshot.deep_view(), services.deep_view()));
    let mut route_status: Vec<RouteAcceptance> = Vec::new();
    assert(route_status.deep_view() =~= Seq::<RouteAcceptanceView>::empty());
    let http_routes = collect_routes(&snapshot.http_routes, &cx, &mut route_status);
    let tcp_routes = collect_routes(&snapshot.tcp_routes, &cx, &mut route_status);
    let tls_routes = collect_routes(&snapshot.tls_routes, &cx, &mut route_status);
    let udp_routes = collect_routes(&snapshot.udp_routes, &cx, &mut route_status);
    proof {
        let s = snapshot.deep_view();
        assert(route_status.deep_view() =~= collected_statuses::<HTTPRoute>(cx@, s.http_routes)
            + collected_statuses::<TCPRoute>(cx@, s.tcp_routes) + collected_statuses::<TLSRoute>(
            cx@,
            s.tls_routes,
        ) + collected_statuses::<UDPRoute>(cx@, s.udp_routes));
    }
    Ok(
        ReconcileResult {
            config: PortailConfig {
                gateway: gateway_config,
                http_routes,
                tcp_routes,
                tls_routes,
                udp_routes,
                endpoint_overrides: services.endpoint_overrides.dup(),
                app_protocol_overrides: services.app_protocol_overrides.dup(),
                headless_target_ports: services.headless_target_ports.dup(),
            },
            route_status,
        },
    )
}

// ---------------------------------------------------------------------------
// Laws
// ---------------------------------------------------------------------------

/// Every reference of a route to the Gateway gets exactly one status entry, in
/// the order of the references, and the entry names the section and the port
/// that the reference names.
pub proof fn law_one_entry_per_reference<R: GatewayRoute>(cx: CollectView, route: R::V)
    ensures
        route_statuses::<R>(cx, route).len() == gateway_refs::<R>(cx, route).len(),
        forall|i: int|
            0 <= i < gateway_refs::<R>(cx, route).len() ==> {
                let entry = #[trigger] route_statuses::<R>(cx, route)[i];
                let pr = gateway_refs::<R>(cx, route)[i];
                entry.section_name == pr.section_name && entry.port == pr.port
            },
{
}

/// A reference is accepted exactly if a listener that it picks takes it and
/// the route converts. What its siblings get does not matter.
pub proof fn law_accepted_by_own_listeners<R: GatewayRoute>(cx: CollectView, route: R::V, i: int)
    requires
        0 <= i < gateway_refs::<R>(cx, route).len(),
    ensures
        route_statuses::<R>(cx, route)[i].accepted <==> (reference_grants::taking_listeners(
            cx.listeners,
            gateway_refs::<R>(cx, route)[i],
            traits_of::<R>(cx, route),
        ).len() > 0 && R::spec_convert(route, cx.gateway_name, cx.gateway_ns) is Ok),
        route_statuses::<R>(cx, route)[i].accepted ==> route_statuses::<R>(
            cx,
            route,
        )[i].listener_names == reference_grants::taking_listeners(
            cx.listeners,
            gateway_refs::<R>(cx, route)[i],
            traits_of::<R>(cx, route),
        ),
{
    let v = verdicts::<R>(cx, route)[i];
    assert(v == verdict_on::<R>(cx, route, gateway_refs::<R>(cx, route)[i]));
}

/// A route contributes a configuration exactly if one of its references is
/// accepted.
pub proof fn law_configured_iff_accepted<R: GatewayRoute>(cx: CollectView, route: R::V)
    ensures
        route_config::<R>(cx, route) is Some <==> exists|i: int|
            0 <= i < route_statuses::<R>(cx, route).len() && (#[trigger] route_statuses::<R>(
                cx,
                route,
            )[i]).accepted,
{
    let s = route_statuses::<R>(cx, route);
    let v = verdicts::<R>(cx, route);
    assert forall|i: int| 0 <= i < s.len() implies (#[trigger] s[i]).accepted == (v[i].result is Ok
        && R::spec_convert(route, cx.gateway_name, cx.gateway_ns) is Ok) by {
        assert(s[i] == status_entry(id_of::<R>(route), v[i], conversion::<R>(cx, route)));
    }
    if route_config::<R>(cx, route) is Some {
        let i = choose|i: int| 0 <= i < v.len() && (#[trigger] v[i]).result is Ok;
        assert(s[i].accepted);
    }
    if exists|i: int| 0 <= i < s.len() && (#[trigger] s[i]).accepted {
        let i = choose|i: int| 0 <= i < s.len() && (#[trigger] s[i]).accepted;
        assert(v[i].result is Ok);
    }
}

proof fn lemma_kept_refs_sound(
    cx: CollectView,
    kind: Seq<char>,
    ns: Seq<char>,
    all: Seq<BackendRefView>,
    refs: Seq<BackendRefView>,
    b: BackendRefView,
)
    requires
        keep_valid(refs, faulty_keys(cx, kind, ns, all)).contains(b),
        forall|x: BackendRefView| refs.contains(x) ==> all.contains(x),
    ensures
        ref_fault(cx, kind, ns, b) is None,
        all.contains(b),
{
    let invalid = faulty_keys(cx, kind, ns, all);
    let p = |x: BackendRefView| !invalid.contains((x.name, x.port));
    refs.filter_lemma(p);
    assert(keep_valid(refs, invalid) == refs.filter(p));
    let j = choose|j: int| 0 <= j < refs.filter(p).len() && refs.filter(p)[j] == b;
    assert(p(refs.filter(p)[j]));
    refs.lemma_filter_contains_rev(p, b);
    assert(refs.contains(b));
    assert(all.contains(b));
    if ref_fault(cx, kind, ns, b) is Some {
        lemma_faulty_key(cx, kind, ns, all, b);
    }
}

proof fn lemma_faulty_key(
    cx: CollectView,
    kind: Seq<char>,
    ns: Seq<char>,
    all: Seq<BackendRefView>,
    b: BackendRefView,
)
    requires
        all.contains(b),
        ref_fault(cx, kind, ns, b) is Some,
    ensures
        faulty_keys(cx, kind, ns, all).contains((b.name, b.port)),
    decreases all.len(),
{
    let f = |b: BackendRefView|
        if ref_fault(cx, kind, ns, b) is Some {
            Some((b.name, b.port))
        } else {
            None
        };
    let init = all.drop_last();
    let rest = init.filter_map(f);
    assert(faulty_keys(cx, kind, ns, init) == rest);
    let whole = faulty_keys(cx, kind, ns, all);
    if all.last() == b {
        assert(whole == rest + seq![(b.name, b.port)]);
        assert(whole[rest.len() as int] == (b.name, b.port));
    } else {
        let j = choose|j: int| 0 <= j < all.len() && all[j] == b;
        assert(init[j] == b);
        lemma_faulty_key(cx, kind, ns, init, b);
        let k = choose|k: int| 0 <= k < rest.len() && rest[k] == (b.name, b.port);
        assert(whole[k] == (b.name, b.port));
    }
}

/// No backend of an HTTP route that may not be used is left in a rule.
pub proof fn law_http_backends_usable(
    cx: CollectView,
    route: HTTPRouteView,
    rule: int,
    b: BackendRefView,
)
    requires
        route_config::<HTTPRoute>(cx, route) is Some,
        0 <= rule < route_config::<HTTPRoute>(cx, route)->0.rules.len(),
        route_config::<HTTPRoute>(cx, route)->0.rules[rule].backend_refs.contains(b),
    ensures
        ref_fault(cx, "HTTPRoute"@, route.namespace(), b) is None,
{
    let c = route.converted(cx.gateway_name, cx.gateway_ns);
    let f = |r: HttpRouteRuleView| r.backend_refs;
    let all = http_backend_refs(c.rules);
    let refs = c.rules[rule].backend_refs;
    assert forall|x: BackendRefView| refs.contains(x) implies all.contains(x) by {
        lists::lemma_flat_map_contains(c.rules, f, rule, x);
    }
    lemma_kept_refs_sound(cx, "HTTPRoute"@, route.namespace(), all, refs, b);
}

/// No backend of a TCP route that may not be used is left in a rule.
pub proof fn law_tcp_backends_usable(
    cx: CollectView,
    route: TCPRouteView,
    rule: int,
    b: BackendRefView,
)
    requires
        route_config::<TCPRoute>(cx, route) is Some,
        0 <= rule < route_config::<TCPRoute>(cx, route)->0.rules.len(),
        route_config::<TCPRoute>(cx, route)->0.rules[rule].backend_refs.contains(b),
    ensures
        ref_fault(cx, "TCPRoute"@, route.namespace(), b) is None,
{
    let c = route.converted(cx.gateway_name, cx.gateway_ns);
    let f = |r: TcpRouteRuleView| r.backend_refs;
    let all = TCPRoute::spec_backend_refs(c);
    let refs = c.rules[rule].backend_refs;
    assert forall|x: BackendRefView| refs.contains(x) implies all.contains(x) by {
        lists::lemma_flat_map_contains(c.rules, f, rule, x);
    }
    lemma_kept_refs_sound(cx, "TCPRoute"@, route.namespace(), all, refs, b);
}

/// No backend of a TLS route that may not be used is left in a rule.
pub proof fn law_tls_backends_usable(
    cx: CollectView,
    route: TLSRouteView,
    rule: int,
    b: BackendRefView,
)
    requires
        route_config::<TLSRoute>(cx, route) is Some,
        0 <= rule < route_config::<TLSRoute>(cx, route)->0.rules.len(),
        route_config::<TLSRoute>(cx, route)->0.rules[rule].backend_refs.contains(b),
    ensures
        ref_fault(cx, "TLSRoute"@, route.namespace(), b) is None,
{
    let c = route.converted(cx.gateway_name, cx.gateway_ns);
    let f = |r: TlsRouteRuleView| r.backend_refs;
    let all = TLSRoute::spec_backend_refs(c);
    let refs = c.rules[rule].backend_refs;
    assert forall|x: BackendRefView| refs.contains(x) implies all.contains(x) by {
        lists::lemma_flat_map_contains(c.rules, f, rule, x);
    }
    lemma_kept_refs_sound(cx, "TLSRoute"@, route.namespace(), all, refs, b);
}

/// No backend of a UDP route that may not be used is left in a rule.
pub proof fn law_udp_backends_usable(
    cx: CollectView,
    route: UDPRouteView,
    rule: int,
    b: BackendRefView,
)
    requires
        route_config::<UDPRoute>(cx, route) is Some,
        0 <= rule < route_config::<UDPRoute>(cx, route)->0.rules.len(),
        route_config::<UDPRoute>(cx, route)->0.rules[rule].backend_refs.contains(b),
    ensures
        ref_fault(cx, "UDPRoute"@, route.namespace(), b) is None,
{
    let c = route.converted(cx.gateway_name, cx.gateway_ns);
    let f = |r: UdpRouteRuleView| r.backend_refs;
    let all = UDPRoute::spec_backend_refs(c);
    let refs = c.rules[rule].backend_refs;
    assert forall|x: BackendRefView| refs.contains(x) implies all.contains(x) by {
        lists::lemma_flat_map_contains(c.rules, f, rule, x);
    }
    lemma_kept_refs_sound(cx, "UDPRoute"@, route.namespace(), all, refs, b);
}

/// No mirror of an HTTP route to a backend that may not be used is left in a
/// rule.
pub proof fn law_http_mirrors_usable(
    cx: CollectView,
    route: HTTPRouteView,
    rule: int,
    filter: HttpRouteFilterView,
)
    requires
        route_config::<HTTPRoute>(cx, route) is Some,
        0 <= rule < route_config::<HTTPRoute>(cx, route)->0.rules.len(),
        route_config::<HTTPRoute>(cx, route)->0.rules[rule].filters.contains(filter),
        mirror_of(filter) is Some,
    ensures
        ref_fault(cx, "HTTPRoute"@, route.namespace(), mirror_of(filter)->0) is None,
{
    let c = route.converted(cx.gateway_name, cx.gateway_ns);
    let b = mirror_of(filter)->0;
    let all = http_mirror_refs(c.rules);
    let invalid = faulty_keys(cx, "HTTPRoute"@, route.namespace(), all);
    let filters = c.rules[rule].filters;
    let p = |f: HttpRouteFilterView|
        match mirror_of(f) {
            Some(b) => !invalid.contains((b.name, b.port)),
            None => true,
        };
    assert(keep_valid_mirrors(filters, invalid) == filters.filter(p));
    filters.filter_lemma(p);
    let j = choose|j: int| 0 <= j < filters.filter(p).len() && filters.filter(p)[j] == filter;
    assert(p(filters.filter(p)[j]));
    filters.lemma_filter_contains_rev(p, filter);
    let m = |f: HttpRouteFilterView| mirror_of(f);
    lists::lemma_filter_map_contains(filters, m, filter, b);
    let g = |r: HttpRouteRuleView| r.filters.filter_map(|f: HttpRouteFilterView| mirror_of(f));
    lists::lemma_flat_map_contains(c.rules, g, rule, b);
    if ref_fault(cx, "HTTPRoute"@, route.namespace(), b) is Some {
        lemma_faulty_key(cx, "HTTPRoute"@, route.namespace(), all, b);
    }
}

/// A faulty mirror costs the mirror alone: backends and the rest of each rule
/// are as without it.
pub proof fn law_mirror_faults_spare_backends(
    c: HttpRouteConfigView,
    invalid: Seq<(Seq<char>, u16)>,
)
    ensures
        http_backend_refs(HTTPRoute::spec_without_mirrors(c, invalid).rules) == http_backend_refs(
            c.rules,
        ),
{
    let d = HTTPRoute::spec_without_mirrors(c, invalid);
    let f = |r: HttpRouteRuleView| r.backend_refs;
    assert(d.rules.map_values(f) =~= c.rules.map_values(f));
}

/// The four kinds of routes go by their names, and bring their own host names;
/// TCP and UDP routes have none.
pub proof fn law_route_kinds(h: HTTPRouteView, tcp: TCPRouteView, tls: TLSRouteView, udp: UDPRouteView)
    ensures
        HTTPRoute::spec_kind() == "HTTPRoute"@,
        TCPRoute::spec_kind() == "TCPRoute"@,
        TLSRoute::spec_kind() == "TLSRoute"@,
        UDPRoute::spec_kind() == "UDPRoute"@,
        HTTPRoute::spec_parent_refs(h) == h.spec.parent_refs,
        TCPRoute::spec_parent_refs(tcp) == tcp.spec.parent_refs,
        TLSRoute::spec_parent_refs(tls) == tls.spec.parent_refs,
        UDPRoute::spec_parent_refs(udp) == udp.spec.parent_refs,
        HTTPRoute::spec_metadata(h) == h.metadata,
        TCPRoute::spec_metadata(tcp) == tcp.metadata,
        TLSRoute::spec_metadata(tls) == tls.metadata,
        UDPRoute::spec_metadata(udp) == udp.metadata,
        h.spec.hostnames is Some ==> HTTPRoute::spec_hostnames(h) == h.spec.hostnames->0,
        h.spec.hostnames is None ==> HTTPRoute::spec_hostnames(h).len() == 0,
        TCPRoute::spec_hostnames(tcp).len() == 0,
        TLSRoute::spec_hostnames(tls) == tls.spec.hostnames,
        UDPRoute::spec_hostnames(udp).len() == 0,
{
}

/// What is wrong with a reference to `{service}.{namespace}.svc`: first that it
/// is to no Service of the core group, then that no grant allows it across
/// namespaces, then that its Service is not known. A reference that is none of
/// these has no fault.
pub proof fn law_fault_meaning(
    cx: CollectView,
    kind: Seq<char>,
    ns: Seq<char>,
    b: BackendRefView,
    svc: Seq<char>,
    svc_ns: Seq<char>,
)
    requires
        b.name == svc + "."@ + svc_ns + ".svc"@,
        !svc_ns.contains('.'),
    ensures
        ({
            let fault = ref_fault(cx, kind, ns, b);
            let core = (b.group.len() == 0 || b.group == "core"@) && (b.kind.len() == 0 || b.kind
                == "Service"@);
            let allowed = reference_grants::reference_allowed(
                cx.reference_grants,
                RefSource { group: "gateway.networking.k8s.io"@, kind, namespace: ns },
                RefTarget {
                    group: Seq::empty(),
                    kind: "Service"@,
                    namespace: svc_ns,
                    name: svc,
                },
            );
            let known = cx.known_services.contains((svc, svc_ns));
            &&& fault is None <==> core && allowed && known
            &&& !core ==> fault->0.reason == "InvalidKind"@ && fault->0.message
                == "Unsupported backend ref group/kind: "@ + b.group + "/"@ + b.kind
            &&& core && !allowed ==> fault->0.reason == "RefNotPermitted"@ && fault->0.message
                == "Cross-namespace reference to "@ + svc + "."@ + svc_ns
                + " not allowed by ReferenceGrant"@
            &&& core && allowed && !known ==> fault->0.reason == "BackendNotFound"@
                && fault->0.message == "Backend service "@ + svc + "."@ + svc_ns + " not found"@
        }),
{
    converters::law_dns_name_round_trip(svc, svc_ns);
    assert(b.name == converters::dns_name(svc, svc_ns));
    reveal_strlit("");
    assert(""@ =~= Seq::<char>::empty());
}

/// The faults of a route are told together: none means that all is resolved;
/// otherwise the last one gives the reason, and the messages of all of them
/// stand in order with semicolons between.
pub proof fn law_faults_are_told_together(faults: Seq<RefFaultView>, f: RefFaultView)
    ensures
        refs_outcome(Seq::empty()).resolved,
        refs_outcome(Seq::empty()).reason == "ResolvedRefs"@,
        refs_outcome(Seq::empty()).message == "All references resolved"@,
        !refs_outcome(faults.push(f)).resolved,
        refs_outcome(faults.push(f)).reason == f.reason,
        refs_outcome(seq![f]).message == f.message,
        faults.len() > 0 ==> refs_outcome(faults.push(f)).message == refs_outcome(faults).message
            + "; "@ + f.message,
{
    let g = |x: RefFaultView| x.message;
    let more = faults.push(f);
    assert(more.map_values(g).drop_last() =~= faults.map_values(g));
    assert(more.map_values(g).last() == f.message);
    assert(seq![f].map_values(g) =~= seq![f.message]);
}

/// The faults of a route are those of its backends and then those of its
/// mirrors, one by one.
pub proof fn law_faults_count_one_by_one(
    cx: CollectView,
    kind: Seq<char>,
    ns: Seq<char>,
    refs: Seq<BackendRefView>,
    b: BackendRefView,
)
    ensures
        ref_faults(cx, kind, ns, Seq::empty()).len() == 0,
        ref_faults(cx, kind, ns, refs.push(b)) == ref_faults(cx, kind, ns, refs) + (match ref_fault(
            cx,
            kind,
            ns,
            b,
        ) {
            Some(f) => seq![f],
            None => Seq::empty(),
        }),
{
    let g = |x: BackendRefView| ref_fault(cx, kind, ns, x);
    reveal_with_fuel(Seq::filter_map, 2);
    let more = refs.push(b);
    assert(more.drop_last() =~= refs);
    assert(more.last() == b);
    assert(ref_faults(cx, kind, ns, more) == more.filter_map(g));
    assert(ref_faults(cx, kind, ns, refs) == refs.filter_map(g));
    assert(refs.filter_map(g) + Seq::empty() =~= refs.filter_map(g));
}

/// What the status of a reference says. A rejection is told by its own reason
/// and leaves the backends out of it; an accepted reference tells how the
/// backends were resolved; a route that does not convert is told so.
pub proof fn law_status_meaning<R: GatewayRoute>(cx: CollectView, route: R::V, i: int)
    requires
        0 <= i < gateway_refs::<R>(cx, route).len(),
    ensures
        ({
            let pr = gateway_refs::<R>(cx, route)[i];
            let entry = route_statuses::<R>(cx, route)[i];
            let m = R::spec_metadata(route);
            let ns = match m.namespace {
                Some(n) => n,
                None => "default"@,
            };
            let t = RouteTraits {
                gateway_ns: cx.gateway_ns,
                route_ns: ns,
                kind: R::spec_kind(),
                hostnames: R::spec_hostnames(route),
                namespace_labels: cx.namespace_labels,
            };
            let found = reference_grants::verdict(cx.listeners, pr, t);
            let converted = R::spec_convert(route, cx.gateway_name, cx.gateway_ns);
            &&& m.name is Some ==> entry.name == m.name->0
            &&& m.name is None ==> entry.name == "unknown"@
            &&& entry.namespace == ns
            &&& entry.kind == R::spec_kind()
            &&& entry.generation == m.generation
            &&& entry.section_name == pr.section_name
            &&& entry.port == pr.port
            &&& entry.accepted <==> found is Ok && converted is Ok
            &&& !entry.accepted ==> entry.listener_names.len() == 0
            &&& found matches Err(e) ==> {
                &&& entry.accepted_reason == e.spec_reason()
                &&& entry.refs_resolved
                &&& entry.refs_reason == "ResolvedRefs"@
                &&& entry.refs_message == "All references resolved"@
                &&& e == Rejection::NoMatchingListenerHostname ==> entry.message
                    == "Route hostnames do not intersect with any listener hostname"@
                &&& e == Rejection::NoMatchingParent ==> entry.message
                    == "No matching listener found for route parentRef"@
                &&& e == Rejection::NotAllowedByListeners ==> entry.message
                    == "Route not allowed by any listener policy (namespace/hostname/kind)"@
            }
            &&& found matches Ok(names) ==> converted matches Ok(c) ==> {
                let faults = ref_faults(cx, R::spec_kind(), ns, R::spec_backend_refs(c))
                    + ref_faults(cx, R::spec_kind(), ns, R::spec_mirror_refs(c));
                &&& entry.listener_names == names
                &&& entry.accepted_reason == "Accepted"@
                &&& entry.message == "Accepted"@
                &&& entry.refs_resolved == refs_outcome(faults).resolved
                &&& entry.refs_reason == refs_outcome(faults).reason
                &&& entry.refs_message == refs_outcome(faults).message
            }
            &&& found is Ok && converted is Err ==> {
                &&& entry.accepted_reason == "InvalidRoute"@
                &&& entry.message == "Conversion failed: "@ + converted->Err_0.message()
                &&& !entry.refs_resolved
                &&& entry.refs_reason == "InvalidKind"@
                &&& entry.refs_message == entry.message
            }
        }),
{
    let pr = gateway_refs::<R>(cx, route)[i];
    assert(verdicts::<R>(cx, route)[i] == verdict_on::<R>(cx, route, pr));
}

/// A backend stays in its rule unless a reference of the route to the same name
/// and port is at fault; nothing else of the route changes.
pub proof fn law_http_usable_backends_stay(
    cx: CollectView,
    route: HTTPRouteView,
    rule: int,
    b: BackendRefView,
)
    requires
        route_config::<HTTPRoute>(cx, route) is Some,
        0 <= rule < route.converted(cx.gateway_name, cx.gateway_ns).rules.len(),
        route.converted(cx.gateway_name, cx.gateway_ns).rules[rule].backend_refs.contains(b),
        forall|x: BackendRefView| #[trigger]
            http_backend_refs(
                route.converted(cx.gateway_name, cx.gateway_ns).rules,
            ).contains(x) && x.name == b.name && x.port == b.port ==> ref_fault(
                cx,
                "HTTPRoute"@,
                route.namespace(),
                x,
            ) is None,
    ensures
        ({
            let c = route.converted(cx.gateway_name, cx.gateway_ns);
            let d = route_config::<HTTPRoute>(cx, route)->0;
            &&& d.rules.len() == c.rules.len()
            &&& d.hostnames == c.hostnames
            &&& d.parent_refs == c.parent_refs
            &&& d.rules[rule].matches == c.rules[rule].matches
            &&& d.rules[rule].timeouts == c.rules[rule].timeouts
            &&& d.rules[rule].backend_refs.contains(b)
        }),
{
    let c = route.converted(cx.gateway_name, cx.gateway_ns);
    let all = http_backend_refs(c.rules);
    let invalid = faulty_keys(cx, "HTTPRoute"@, route.namespace(), all);
    let refs = c.rules[rule].backend_refs;
    let p = |x: BackendRefView| !invalid.contains((x.name, x.port));
    if invalid.contains((b.name, b.port)) {
        let g = |x: BackendRefView|
            if ref_fault(cx, "HTTPRoute"@, route.namespace(), x) is Some {
                Some((x.name, x.port))
            } else {
                None
            };
        assert(invalid == all.filter_map(g));
        let j = lists::lemma_filter_map_origin(all, g, (b.name, b.port));
        assert(all.contains(all[j]));
    }
    assert(p(b));
    let k = choose|k: int| 0 <= k < refs.len() && refs[k] == b;
    refs.lemma_filter_contains(p, k);
    assert(keep_valid(refs, invalid) == refs.filter(p));
}

/// Routes count one by one, in order: one more adds its configuration, if it
/// has one, and its status entries.
pub proof fn law_routes_count_one_by_one<R: GatewayRoute>(
    cx: CollectView,
    routes: Seq<R::V>,
    route: R::V,
)
    ensures
        collected_configs::<R>(cx, Seq::empty()).len() == 0,
        collected_statuses::<R>(cx, Seq::empty()).len() == 0,
        collected_configs::<R>(cx, routes.push(route)) == collected_configs::<R>(cx, routes) + (
        match route_config::<R>(cx, route) {
            Some(c) => seq![c],
            None => Seq::empty(),
        }),
        collected_statuses::<R>(cx, routes.push(route)) == collected_statuses::<R>(cx, routes)
            + route_statuses::<R>(cx, route),
{
    let f = |r: R::V| route_config::<R>(cx, r);
    let g = |r: R::V| route_statuses::<R>(cx, r);
    reveal_with_fuel(Seq::filter_map, 2);
    let more = routes.push(route);
    assert(more.drop_last() =~= routes);
    assert(more.last() == route);
    assert(collected_configs::<R>(cx, more) == more.filter_map(f));
    assert(collected_configs::<R>(cx, routes) == routes.filter_map(f));
    assert(routes.filter_map(f) + Seq::empty() =~= routes.filter_map(f));
    routes.lemma_flat_map_push(g, route);
    assert(collected_statuses::<R>(cx, more) == more.flat_map(g));
    assert(collected_statuses::<R>(cx, routes) == routes.flat_map(g));
    assert(Seq::<R::V>::empty().map_values(g) =~= Seq::empty());
}

/// A pass takes what it needs from where it stands: the Gateway's name and
/// namespace, `default` where it has none, its listeners, the snapshot's
/// namespaces and grants and the known Services; and hands on the routes of
/// each kind and what is known of Services. It fails where the Gateway does
/// not convert, and only there.
pub proof fn law_pass_parts(
    gateway: GatewayView,
    snapshot: ClusterSnapshotView,
    certs: CertDataView,
    services: ServiceStateView,
)
    ensures
        ({
            let name = match gateway.metadata.name {
                Some(n) => n,
                None => "default"@,
            };
            let ns = match gateway.metadata.namespace {
                Some(n) => n,
                None => "default"@,
            };
            let cx = CollectView {
                gateway_name: name,
                gateway_ns: ns,
                listeners: gateway.spec.listeners,
                namespace_labels: snapshot.namespace_labels,
                reference_grants: snapshot.reference_grants,
                known_services: services.known_services,
            };
            let out = reconciled(gateway, snapshot, certs, services);
            let g = gateway.converted(certs);
            &&& out is Ok <==> g is Ok
            &&& out matches Err(e) ==> g == Err::<GatewayConfigView, ConvertErrorView>(e)
            &&& out matches Ok(r) ==> {
                &&& r.config.gateway.name == g->Ok_0.name
                &&& r.config.gateway.addresses == g->Ok_0.addresses
                &&& r.config.gateway.listeners.len() == g->Ok_0.listeners.len()
                &&& forall|i: int|
                    0 <= i < g->Ok_0.listeners.len() ==> {
                        let l = #[trigger] r.config.gateway.listeners[i];
                        let before = g->Ok_0.listeners[i];
                        let targets = listener_target_ports(snapshot.services, ns, name);
                        &&& l == (ListenerConfigView { target_port: l.target_port, ..before })
                        &&& targets.dom().contains(before.port) ==> l.target_port == Some(
                            targets[before.port],
                        )
                        &&& !targets.dom().contains(before.port) ==> l.target_port is None
                    }
                &&& r.config.http_routes == collected_configs::<HTTPRoute>(cx, snapshot.http_routes)
                &&& r.config.tcp_routes == collected_configs::<TCPRoute>(cx, snapshot.tcp_routes)
                &&& r.config.tls_routes == collected_configs::<TLSRoute>(cx, snapshot.tls_routes)
                &&& r.config.udp_routes == collected_configs::<UDPRoute>(cx, snapshot.udp_routes)
                &&& r.config.endpoint_overrides == services.endpoint_overrides
                &&& r.config.app_protocol_overrides == services.app_protocol_overrides
                &&& r.config.headless_target_ports == services.headless_target_ports
                &&& r.route_status == collected_statuses::<HTTPRoute>(cx, snapshot.http_routes)
                    + collected_statuses::<TCPRoute>(cx, snapshot.tcp_routes)
                    + collected_statuses::<TLSRoute>(cx, snapshot.tls_routes)
                    + collected_statuses::<UDPRoute>(cx, snapshot.udp_routes)
            }
        }),
{
}

/// The Service that fronts a Gateway lives in its namespace and names it by the
/// label `portail.epheo.eu/gateway`; of several the first counts.
pub proof fn law_fronting_service(
    before: Seq<ServiceView>,
    svc: ServiceView,
    after: Seq<ServiceView>,
    ns: Seq<char>,
    name: Seq<char>,
)
    requires
        forall|i: int| 0 <= i < before.len() ==> fronting_service(seq![#[trigger] before[i]], ns, name) is None,
    ensures
        fronting_service(before, ns, name) is None,
        fronting_service(seq![svc], ns, name) is Some <==> svc.metadata.namespace == Some(ns) && (
        svc.metadata.labels matches Some(labels) && labels.dom().contains(
            "portail.epheo.eu/gateway"@,
        ) && labels["portail.epheo.eu/gateway"@] == name),
        fronting_service(seq![svc], ns, name) is Some ==> fronting_service(
            before + seq![svc] + after,
            ns,
            name,
        ) == Some(svc),
        fronting_service(seq![svc], ns, name) is None ==> fronting_service(
            before + seq![svc] + after,
            ns,
            name,
        ) == fronting_service(after, ns, name),
    decreases before.len(),
{
    let all = before + seq![svc] + after;
    assert(seq![svc].first() == svc);
    assert(seq![svc].drop_first() =~= Seq::empty());
    assert(fronting_service(seq![svc].drop_first(), ns, name) is None);
    if before.len() == 0 {
        assert(all.first() == svc);
        assert(all.drop_first() =~= after);
    } else {
        assert(fronting_service(seq![before[0]], ns, name) is None);
        assert(seq![before[0]].first() == before[0]);
        assert(all.first() == before[0]);
        assert(all.drop_first() =~= before.drop_first() + seq![svc] + after);
        assert forall|i: int| 0 <= i < before.drop_first().len() implies fronting_service(
            seq![#[trigger] before.drop_first()[i]],
            ns,
            name,
        ) is None by {
            assert(before.drop_first()[i] == before[i + 1]);
        }
        law_fronting_service(before.drop_first(), svc, after, ns, name);
    }
}

/// The target ports of a fronting Service come from its ports one by one, as
/// far as both numbers are ports; a later port counts in place of an earlier.
pub proof fn law_target_ports(ports: Seq<ServicePortView>, p: ServicePortView)
    ensures
        target_ports(Seq::empty()) == Map::<u16, u16>::empty(),
        target_ports(ports.push(p)) == match p.target_port {
            Some(IntOrStringView::Int(t)) => if 0 <= p.port <= 65535 && 0 <= t <= 65535 {
                target_ports(ports).insert(p.port as u16, t as u16)
            } else {
                target_ports(ports)
            },
            _ => target_ports(ports),
        },
{
    assert(ports.push(p).drop_last() =~= ports);
    assert(ports.push(p).last() == p);
}

/// The target ports of a Gateway are those of the Service that fronts it, and
/// none where no Service does.
pub proof fn law_listener_target_ports(
    services: Seq<ServiceView>,
    ns: Seq<char>,
    name: Seq<char>,
)
    ensures
        fronting_service(services, ns, name) is None ==> listener_target_ports(services, ns, name)
            == Map::<u16, u16>::empty(),
        fronting_service(services, ns, name) matches Some(svc) ==> {
            &&& svc.spec matches Some(spec) ==> spec.ports matches Some(ports)
                ==> listener_target_ports(services, ns, name) == target_ports(ports)
            &&& svc.spec is None ==> listener_target_ports(services, ns, name) == Map::<
                u16,
                u16,
            >::empty()
        },
{
}

/// A mirror is a filter of that type, and the backends and mirrors of a route
/// are those of its rules, one after another.
pub proof fn law_references_of_rules(
    rules: Seq<HttpRouteRuleView>,
    r: HttpRouteRuleView,
    f: HttpRouteFilterView,
)
    ensures
        http_backend_refs(rules.push(r)) == http_backend_refs(rules) + r.backend_refs,
        http_mirror_refs(rules.push(r)) == http_mirror_refs(rules) + http_mirror_refs(seq![r]),
        mirror_of(f) is Some <==> f is RequestMirror,
        f matches HttpRouteFilterView::RequestMirror { config } ==> mirror_of(f) == Some(
            config.backend_ref,
        ),
        http_mirror_refs(
            seq![HttpRouteRuleView { filters: Seq::empty(), ..r }],
        ).len() == 0,
        http_mirror_refs(seq![HttpRouteRuleView { filters: r.filters.push(f), ..r }])
            == http_mirror_refs(seq![r]) + (match f {
            HttpRouteFilterView::RequestMirror { config } => seq![config.backend_ref],
            _ => Seq::empty(),
        }),
{
    let b = |x: HttpRouteRuleView| x.backend_refs;
    let m = |x: HttpRouteRuleView| x.filters.filter_map(|y: HttpRouteFilterView| mirror_of(y));
    rules.lemma_flat_map_push(b, r);
    rules.lemma_flat_map_push(m, r);
    lemma_one_rule_mirrors(r);
    lemma_one_rule_mirrors(HttpRouteRuleView { filters: Seq::empty(), ..r });
    lemma_one_rule_mirrors(HttpRouteRuleView { filters: r.filters.push(f), ..r });
    let g = |y: HttpRouteFilterView| mirror_of(y);
    reveal_with_fuel(Seq::filter_map, 2);
    let more = r.filters.push(f);
    assert(more.drop_last() =~= r.filters);
    assert(more.last() == f);
    assert(r.filters.filter_map(g) + Seq::empty() =~= r.filters.filter_map(g));
    assert(http_backend_refs(rules.push(r)) == rules.push(r).flat_map(b));
    assert(http_mirror_refs(rules.push(r)) == rules.push(r).flat_map(m));
}

proof fn lemma_one_rule_mirrors(r: HttpRouteRuleView)
    ensures
        http_mirror_refs(seq![r]) == r.filters.filter_map(
            |f: HttpRouteFilterView| mirror_of(f),
        ),
{
    let m = |x: HttpRouteRuleView| x.filters.filter_map(|f: HttpRouteFilterView| mirror_of(f));
    let none = Seq::<HttpRouteRuleView>::empty();
    none.lemma_flat_map_push(m, r);
    assert(none.push(r) =~= seq![r]);
    assert(none.map_values(m) =~= Seq::empty());
    assert(none.flat_map(m) =~= Seq::empty());
    assert(none.flat_map(m) + m(r) =~= m(r));
}

} // verus!
