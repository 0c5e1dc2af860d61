//! From cluster objects to the data plane configuration.
use crate::config::{
    BackendFilter, BackendFilterView, BackendRef, BackendRefView, CertificateRef,
    CertificateRefView, GatewayConfig, GatewayConfigView, HeaderModifierConfig,
    HeaderModifierConfigView, HttpHeader, HttpHeaderMatch, HttpHeaderMatchView, HttpHeaderView,
    HttpPathMatch, HttpPathMatchType, HttpPathMatchView, HttpQueryParamMatch,
    HttpQueryParamMatchView, HttpRouteConfig, HttpRouteConfigView, HttpRouteFilter,
    HttpRouteFilterView, HttpRouteMatch, HttpRouteMatchView, HttpRouteRule, HttpRouteRuleView,
    HttpRouteTimeouts, HttpRouteTimeoutsView, HttpURLRewritePath, HttpURLRewritePathView,
    ListenerConfig, ListenerConfigView, Protocol, RequestMirrorConfig, RequestMirrorConfigView,
    RequestRedirectConfig, RequestRedirectConfigView, StringMatchType, TcpRouteConfig,
    TcpRouteConfigView, TcpRouteRule, TcpRouteRuleView, TlsConfig, TlsConfigView, TlsMode,
    TlsRouteConfig, TlsRouteConfigView, TlsRouteRule, TlsRouteRuleView, URLRewriteConfig,
    URLRewriteConfigView, UdpRouteConfig, UdpRouteConfigView, UdpRouteRule, UdpRouteRuleView,
};
use crate::dup::Dup;
use crate::duration;
use crate::duration::parse_duration;
use crate::kubernetes::parent_ref;
use crate::kubernetes::parent_ref::extract_parent_refs;
use crate::kubernetes::resources::{
    Gateway, GatewayAddresses, GatewayAddressesView, GatewayListeners, GatewayListenersTls,
    GatewayListenersTlsCertificateRefs, GatewayListenersTlsCertificateRefsView,
    GatewayListenersTlsMode, GatewayListenersTlsView, GatewayListenersView, GatewayView, HTTPHeader,
    HTTPHeaderModifier, HTTPHeaderModifierView, HTTPHeaderView, HTTPRoute, HTTPRouteRules,
    HTTPRouteRulesBackendRefs, HTTPRouteRulesBackendRefsFilters,
    HTTPRouteRulesBackendRefsFiltersView, HTTPRouteRulesBackendRefsView, HTTPRouteRulesFilters,
    HTTPRouteRulesFiltersPath, HTTPRouteRulesFiltersPathType, HTTPRouteRulesFiltersPathView,
    HTTPRouteRulesFiltersRequestMirror, HTTPRouteRulesFiltersRequestMirrorView,
    HTTPRouteRulesFiltersRequestRedirect, HTTPRouteRulesFiltersRequestRedirectScheme,
    HTTPRouteRulesFiltersRequestRedirectView, HTTPRouteRulesFiltersType,
    HTTPRouteRulesFiltersUrlRewrite, HTTPRouteRulesFiltersUrlRewriteView, HTTPRouteRulesFiltersView,
    HTTPRouteRulesMatches, HTTPRouteRulesMatchesHeaders, HTTPRouteRulesMatchesHeadersView,
    HTTPRouteRulesMatchesMethod, HTTPRouteRulesMatchesPathType, HTTPRouteRulesMatchesPathView,
    HTTPRouteRulesMatchesQueryParams, HTTPRouteRulesMatchesQueryParamsView,
    HTTPRouteRulesMatchesValueType, HTTPRouteRulesMatchesView, HTTPRouteRulesTimeouts,
    HTTPRouteRulesTimeoutsView, HTTPRouteRulesView, HTTPRouteView, L4BackendRef, L4BackendRefView,
    L4RouteRule, L4RouteRuleView, ObjectMeta, TCPRoute, TCPRouteView, TLSRoute, TLSRouteView,
    UDPRoute, UDPRouteView,
};
use crate::lists;
use crate::lists::{filter_map_vec, map_vec};
use crate::table::Table;
use crate::text;
use crate::text::{chars_of, find_last, opt_or, str_eq};
use vstd::prelude::*;

verus! {

/// Certificates and keys by (secret, namespace).
pub type CertData = Table<(String, String), (Vec<u8>, Vec<u8>)>;

/// What a [`CertData`] denotes.
pub type CertDataView = Map<(Seq<char>, Seq<char>), (Seq<u8>, Seq<u8>)>;

/// Why an object has no counterpart in the configuration.
#[derive(Clone, Debug, PartialEq, Eq)]
pub enum ConvertError {
    /// A listener protocol that the data plane does not speak.
    UnsupportedProtocol(String),
    /// A filter without the section that its type names.
    MissingFilterConfig(HTTPRouteRulesFiltersType),
    /// A filter type that the data plane does not apply.
    UnsupportedFilterType,
}

/// What a [`ConvertError`] denotes.
#[verifier::ext_equal]
pub enum ConvertErrorView {
    UnsupportedProtocol(Seq<char>),
    MissingFilterConfig(HTTPRouteRulesFiltersType),
    UnsupportedFilterType,
}

impl DeepView for ConvertError {
    type V = ConvertErrorView;

    open spec fn deep_view(&self) -> ConvertErrorView {
        match self {
            ConvertError::UnsupportedProtocol(p) => ConvertErrorView::UnsupportedProtocol(p@),
            ConvertError::MissingFilterConfig(t) => ConvertErrorView::MissingFilterConfig(*t),
            ConvertError::UnsupportedFilterType => ConvertErrorView::UnsupportedFilterType,
        }
    }
}

/// The name of a filter type in messages.
pub open spec fn filter_type_name(t: HTTPRouteRulesFiltersType) -> Seq<char> {
    match t {
        HTTPRouteRulesFiltersType::RequestHeaderModifier => "RequestHeaderModifier"@,
        HTTPRouteRulesFiltersType::ResponseHeaderModifier => "ResponseHeaderModifier"@,
        HTTPRouteRulesFiltersType::RequestMirror => "RequestMirror"@,
        HTTPRouteRulesFiltersType::RequestRedirect => "RequestRedirect"@,
        HTTPRouteRulesFiltersType::UrlRewrite => "URLRewrite"@,
        HTTPRouteRulesFiltersType::ExtensionRef => "ExtensionRef"@,
    }
}

impl ConvertErrorView {
    /// The message of the error.
    pub open spec fn message(self) -> Seq<char> {
        match self {
            ConvertErrorView::UnsupportedProtocol(p) => "unsupported listener protocol: "@ + p,
            ConvertErrorView::MissingFilterConfig(t) => filter_type_name(t)
                + " filter missing config"@,
            ConvertErrorView::UnsupportedFilterType => "unsupported filter type"@,
        }
    }
}

impl ConvertError {
    /// The message of the error.
    pub fn message(&self) -> (r: String)
        ensures
            r@ == self.deep_view().message(),
    {
        match self {
            ConvertError::UnsupportedProtocol(p) => {
                let mut s = "unsupported listener protocol: ".to_owned();
                s.append(p.as_str());
                s
            },
            ConvertError::MissingFilterConfig(t) => {
                let name = match t {
                    HTTPRouteRulesFiltersType::RequestHeaderModifier => "RequestHeaderModifier",
                    HTTPRouteRulesFiltersType::ResponseHeaderModifier => "ResponseHeaderModifier",
                    HTTPRouteRulesFiltersType::RequestMirror => "RequestMirror",
                    HTTPRouteRulesFiltersType::RequestRedirect => "RequestRedirect",
                    HTTPRouteRulesFiltersType::UrlRewrite => "URLRewrite",
                    HTTPRouteRulesFiltersType::ExtensionRef => "ExtensionRef",
                };
                let mut s = name.to_owned();
                s.append(" filter missing config");
                s
            },
            ConvertError::UnsupportedFilterType => "unsupported filter type".to_owned(),
        }
    }
}

// ---------------------------------------------------------------------------
// Gateway and listeners
// ---------------------------------------------------------------------------

/// The protocol of a name, if the data plane speaks it.
pub open spec fn protocol_named(name: Seq<char>) -> Option<Protocol> {
    if name == "HTTP"@ {
        Some(Protocol::HTTP)
    } else if name == "HTTPS"@ {
        Some(Protocol::HTTPS)
    } else if name == "TLS"@ {
        Some(Protocol::TLS)
    } else if name == "TCP"@ {
        Some(Protocol::TCP)
    } else if name == "UDP"@ {
        Some(Protocol::UDP)
    } else {
        None
    }
}

/// The protocol called `name`, if the data plane speaks it.
pub fn protocol_of(name: &str) -> (r: Option<Protocol>)
    ensures
        r == protocol_named(name@),
{
    if str_eq(name, "HTTP") {
        Some(Protocol::HTTP)
    } else if str_eq(name, "HTTPS") {
        Some(Protocol::HTTPS)
    } else if str_eq(name, "TLS") {
        Some(Protocol::TLS)
    } else if str_eq(name, "TCP") {
        Some(Protocol::TCP)
    } else if str_eq(name, "UDP") {
        Some(Protocol::UDP)
    } else {
        None
    }
}

impl GatewayListenersTlsCertificateRefsView {
    /// The Secret that the reference of a Gateway in `gw_ns` names.
    pub open spec fn secret_key(self, gw_ns: Seq<char>) -> (Seq<char>, Seq<char>) {
        (self.name, text::or_text(self.namespace, gw_ns))
    }

    /// The certificate of the reference, with what is known of its Secret.
    pub open spec fn converted(
        self,
        hostname: Option<Seq<char>>,
        gw_ns: Seq<char>,
        certs: CertDataView,
    ) -> CertificateRefView {
        let key = self.secret_key(gw_ns);
        CertificateRefView {
            name: self.name,
            hostname,
            cert_pem: if certs.dom().contains(key) {
                Some(certs[key].0)
            } else {
                None
            },
            key_pem: if certs.dom().contains(key) {
                Some(certs[key].1)
            } else {
                None
            },
        }
    }
}

impl GatewayListenersTlsView {
    pub open spec fn converted(
        self,
        hostname: Option<Seq<char>>,
        gw_ns: Seq<char>,
        certs: CertDataView,
    ) -> TlsConfigView {
        TlsConfigView {
            mode: if self.mode == Some(GatewayListenersTlsMode::Passthrough) {
                TlsMode::Passthrough
            } else {
                TlsMode::Terminate
            },
            certificate_refs: match self.certificate_refs {
                Some(refs) => refs.map_values(
                    |r: GatewayListenersTlsCertificateRefsView| r.converted(hostname, gw_ns, certs),
                ),
                None => Seq::empty(),
            },
        }
    }
}

impl GatewayListenersView {
    /// The listener's counterpart in the configuration.
    pub open spec fn converted(self, gw_ns: Seq<char>, certs: CertDataView) -> Option<
        ListenerConfigView,
    > {
        match protocol_named(self.protocol) {
            None => None,
            Some(protocol) => Some(
                ListenerConfigView {
                    name: self.name,
                    protocol,
                    port: self.port as u16,
                    target_port: None,
                    hostname: self.hostname,
                    address: None,
                    interface: None,
                    tls: match self.tls {
                        Some(t) => Some(t.converted(self.hostname, gw_ns, certs)),
                        None => None,
                    },
                },
            ),
        }
    }
}

fn convert_certificate_ref(
    r: &GatewayListenersTlsCertificateRefs,
    hostname: &Option<String>,
    gw_ns: &str,
    cert_data: &CertData,
) -> (out: CertificateRef)
    ensures
        out.deep_view() == r.deep_view().converted(
            hostname.deep_view(),
            gw_ns@,
            cert_data.deep_view(),
        ),
{
    let key = (r.name.clone(), opt_or(&r.namespace, gw_ns).to_owned());
    let (cert_pem, key_pem) = match cert_data.get(&key) {
        Some((c, k)) => (Some(c.dup()), Some(k.dup())),
        None => (None, None),
    };
    CertificateRef { name: r.name.clone(), hostname: hostname.dup(), cert_pem, key_pem }
}

fn convert_listener_tls(
    t: &GatewayListenersTls,
    hostname: &Option<String>,
    gw_ns: &str,
    cert_data: &CertData,
) -> (out: TlsConfig)
    ensures
        out.deep_view() == t.deep_view().converted(
            hostname.deep_view(),
            gw_ns@,
            cert_data.deep_view(),
        ),
{
    let mode = match t.mode {
        Some(GatewayListenersTlsMode::Passthrough) => TlsMode::Passthrough,
        _ => TlsMode::Terminate,
    };
    let certificate_refs = match &t.certificate_refs {
        Some(refs) => map_vec(
            refs,
            |r: &GatewayListenersTlsCertificateRefs| -> (o: CertificateRef)
                ensures
                    o.deep_view() == r.deep_view().converted(
                        hostname.deep_view(),
                        gw_ns@,
                        cert_data.deep_view(),
                    )
                { convert_certificate_ref(r, hostname, gw_ns, cert_data) },
            Ghost(
                |r: GatewayListenersTlsCertificateRefsView|
                    r.converted(hostname.deep_view(), gw_ns@, cert_data.deep_view()),
            ),
        ),
        None => Vec::new(),
    };
    let out = TlsConfig { mode, certificate_refs };
    assert(out.deep_view().certificate_refs =~= t.deep_view().converted(
        hostname.deep_view(),
        gw_ns@,
        cert_data.deep_view(),
    ).certificate_refs);
    out
}

/// The configuration of a listener, with the certificates that are known. A
/// protocol that the data plane does not speak is an error.
pub fn convert_listener(l: &GatewayListeners, gw_ns: &str, cert_data: &CertData) -> (r: Result<
    ListenerConfig,
    ConvertError,
>)
    ensures
        match l.deep_view().converted(gw_ns@, cert_data.deep_view()) {
            Some(c) => r is Ok && r->Ok_0.deep_view() == c,
            None => r is Err && r->Err_0.deep_view() == ConvertErrorView::UnsupportedProtocol(
                l.protocol@,
            ),
        },
{
    match protocol_of(l.protocol.as_str()) {
        None => Err(ConvertError::UnsupportedProtocol(l.protocol.clone())),
        Some(protocol) => {
            let tls = match &l.tls {
                Some(t) => Some(convert_listener_tls(t, &l.hostname, gw_ns, cert_data)),
                None => None,
            };
            Ok(
                ListenerConfig {
                    name: l.name.clone(),
                    protocol,
                    port: l.port as u16,
                    target_port: None,
                    hostname: l.hostname.dup(),
                    address: None,
                    interface: None,
                    tls,
                },
            )
        },
    }
}

/// The listeners with a counterpart in the configuration, in order.
pub open spec fn converted_listeners(
    listeners: Seq<GatewayListenersView>,
    gw_ns: Seq<char>,
    certs: CertDataView,
) -> Seq<ListenerConfigView> {
    listeners.filter_map(|l: GatewayListenersView| l.converted(gw_ns, certs))
}

/// The first listener protocol that the data plane does not speak.
pub open spec fn first_unsupported(listeners: Seq<GatewayListenersView>) -> Option<Seq<char>>
    decreases listeners.len(),
{
    if listeners.len() == 0 {
        None
    } else if first_unsupported(listeners.drop_last()) is Some {
        first_unsupported(listeners.drop_last())
    } else if protocol_named(listeners.last().protocol) is None {
        Some(listeners.last().protocol)
    } else {
        None
    }
}

impl GatewayView {
    pub open spec fn namespace(self) -> Seq<char> {
        text::or_text(self.metadata.namespace, "default"@)
    }

    /// The values of the requested addresses.
    pub open spec fn address_values(self) -> Seq<Seq<char>> {
        match self.spec.addresses {
            Some(addrs) => addrs.filter_map(|a: GatewayAddressesView| a.value),
            None => Seq::empty(),
        }
    }

    /// The Gateway's configuration. One listener that the data plane cannot
    /// serve leaves the others standing; a Gateway that has no other listeners
    /// has no configuration.
    pub open spec fn converted(self, certs: CertDataView) -> Result<
        GatewayConfigView,
        ConvertErrorView,
    > {
        let listeners = converted_listeners(self.spec.listeners, self.namespace(), certs);
        match first_unsupported(self.spec.listeners) {
            Some(p) if listeners.len() == 0 => Err(ConvertErrorView::UnsupportedProtocol(p)),
            _ => Ok(
                GatewayConfigView {
                    name: text::or_text(self.metadata.name, "portail-gateway"@),
                    listeners,
                    addresses: self.address_values(),
                },
            ),
        }
    }
}

/// What the outcome of a conversion denotes.
pub open spec fn outcome<T: DeepView>(r: Result<T, ConvertError>) -> Result<T::V, ConvertErrorView> {
    match r {
        Ok(c) => Ok(c.deep_view()),
        Err(e) => Err(e.deep_view()),
    }
}

/// The configuration of a Gateway: its listeners, as far as the data plane can
/// serve them, and the values of its requested addresses.
pub fn convert_gateway(gw: &Gateway, cert_data: &CertData) -> (r: Result<
    GatewayConfig,
    ConvertError,
>)
    ensures
        outcome(r) == gw.deep_view().converted(cert_data.deep_view()),
{
    let gw_ns = opt_or(&gw.metadata.namespace, "default");
    let mut listeners: Vec<ListenerConfig> = Vec::new();
    let mut first_error: Option<ConvertError> = None;
    let ghost v = gw.deep_view().spec.listeners;
    let ghost f = |l: GatewayListenersView| l.converted(gw_ns@, cert_data.deep_view());
    let mut i: usize = 0;
    assert(listeners.deep_view() =~= v.take(0).filter_map(f));
    while i < gw.spec.listeners.len()
        invariant
            i <= gw.spec.listeners.len(),
            v == gw.spec.listeners.deep_view(),
            f == (|l: GatewayListenersView| l.converted(gw_ns@, cert_data.deep_view())),
            listeners.deep_view() == v.take(i as int).filter_map(f),
            match first_unsupported(v.take(i as int)) {
                Some(p) => first_error is Some && first_error->0.deep_view()
                    == ConvertErrorView::UnsupportedProtocol(p),
                None => first_error is None,
            },
        decreases gw.spec.listeners.len() - i,
    {
        let ghost before = listeners.deep_view();
        proof {
            assert(v.take(i + 1).drop_last() =~= v.take(i as int));
            assert(v.take(i + 1).last() == gw.spec.listeners@[i as int].deep_view());
        }
        match convert_listener(&gw.spec.listeners[i], gw_ns, cert_data) {
            Ok(c) => {
                listeners.push(c);
                assert(listeners.deep_view() =~= before + seq![c.deep_view()]);
            },
            Err(e) => {
                if first_error.is_none() {
                    first_error = Some(e);
                }
            },
        }
        i += 1;
    }
    proof {
        assert(v.take(v.len() as int) =~= v);
        assert(listeners.deep_view() == converted_listeners(v, gw_ns@, cert_data.deep_view()));
    }
    if listeners.len() == 0 {
        if let Some(e) = first_error {
            return Err(e);
        }
    }
    let addresses: Vec<String> = match &gw.spec.addresses {
        Some(addrs) => filter_map_vec(
            addrs,
            |a: &GatewayAddresses| -> (o: Option<String>)
                ensures
                    o.deep_view() == a.deep_view().value
                { a.value.dup() },
            Ghost(|a: GatewayAddressesView| a.value),
        ),
        None => Vec::new(),
    };
    let out = GatewayConfig {
        name: opt_or(&gw.metadata.name, "portail-gateway").to_owned(),
        listeners,
        addresses,
    };
    assert(out.deep_view().addresses =~= gw.deep_view().address_values());
    Ok(out)
}

// ---------------------------------------------------------------------------
// HTTP matches
// ---------------------------------------------------------------------------

/// The name of a request method.
pub open spec fn method_name(m: HTTPRouteRulesMatchesMethod) -> Seq<char> {
    match m {
        HTTPRouteRulesMatchesMethod::Get => "GET"@,
        HTTPRouteRulesMatchesMethod::Head => "HEAD"@,
        HTTPRouteRulesMatchesMethod::Post => "POST"@,
        HTTPRouteRulesMatchesMethod::Put => "PUT"@,
        HTTPRouteRulesMatchesMethod::Delete => "DELETE"@,
        HTTPRouteRulesMatchesMethod::Connect => "CONNECT"@,
        HTTPRouteRulesMatchesMethod::Options => "OPTIONS"@,
        HTTPRouteRulesMatchesMethod::Trace => "TRACE"@,
        HTTPRouteRulesMatchesMethod::Patch => "PATCH"@,
    }
}

/// How a value is matched; exactly, unless the route says otherwise.
pub open spec fn value_match_type(t: Option<HTTPRouteRulesMatchesValueType>) -> StringMatchType {
    if t == Some(HTTPRouteRulesMatchesValueType::RegularExpression) {
        StringMatchType::RegularExpression
    } else {
        StringMatchType::Exact
    }
}

impl HTTPRouteRulesMatchesPathView {
    /// The path to match: as a prefix unless the route says otherwise, and `/`
    /// where it names none.
    pub open spec fn converted(self) -> HttpPathMatchView {
        HttpPathMatchView {
            match_type: match self.type_ {
                Some(HTTPRouteRulesMatchesPathType::Exact) => HttpPathMatchType::Exact,
                Some(
                    HTTPRouteRulesMatchesPathType::RegularExpression,
                ) => HttpPathMatchType::RegularExpression,
                _ => HttpPathMatchType::PathPrefix,
            },
            value: text::or_text(self.value, "/"@),
        }
    }
}

impl HTTPRouteRulesMatchesHeadersView {
    pub open spec fn converted(self) -> HttpHeaderMatchView {
        HttpHeaderMatchView {
            name: self.name,
            value: self.value,
            match_type: value_match_type(self.type_),
        }
    }
}

impl HTTPRouteRulesMatchesQueryParamsView {
    pub open spec fn converted(self) -> HttpQueryParamMatchView {
        HttpQueryParamMatchView {
            name: self.name,
            value: self.value,
            match_type: value_match_type(self.type_),
        }
    }
}

impl HTTPRouteRulesMatchesView {
    pub open spec fn converted(self) -> HttpRouteMatchView {
        HttpRouteMatchView {
            method: match self.method {
                Some(m) => Some(method_name(m)),
                None => None,
            },
            path: match self.path {
                Some(p) => Some(p.converted()),
                None => None,
            },
            headers: match self.headers {
                Some(h) => h.map_values(|x: HTTPRouteRulesMatchesHeadersView| x.converted()),
                None => Seq::empty(),
            },
            query_params: match self.query_params {
                Some(q) => q.map_values(|x: HTTPRouteRulesMatchesQueryParamsView| x.converted()),
                None => Seq::empty(),
            },
        }
    }
}

fn convert_value_match_type(t: Option<HTTPRouteRulesMatchesValueType>) -> (r: StringMatchType)
    ensures
        r == value_match_type(t),
{
    match t {
        Some(
            HTTPRouteRulesMatchesValueType::RegularExpression,
        ) => StringMatchType::RegularExpression,
        _ => StringMatchType::Exact,
    }
}

fn convert_header_match(h: &HTTPRouteRulesMatchesHeaders) -> (r: HttpHeaderMatch)
    ensures
        r.deep_view() == h.deep_view().converted(),
{
    HttpHeaderMatch {
        name: h.name.clone(),
        value: h.value.clone(),
        match_type: convert_value_match_type(h.type_),
    }
}

fn convert_query_param_match(q: &HTTPRouteRulesMatchesQueryParams) -> (r: HttpQueryParamMatch)
    ensures
        r.deep_view() == q.deep_view().converted(),
{
    HttpQueryParamMatch {
        name: q.name.clone(),
        value: q.value.clone(),
        match_type: convert_value_match_type(q.type_),
    }
}

/// The condition on requests that a match states.
pub fn convert_http_match(m: &HTTPRouteRulesMatches) -> (r: HttpRouteMatch)
    ensures
        r.deep_view() == m.deep_view().converted(),
        m.method is None ==> r.method is None,
        m.method == Some(HTTPRouteRulesMatchesMethod::Get) ==> r.method.deep_view() == Some("GET"@),
        m.method == Some(HTTPRouteRulesMatchesMethod::Head) ==> r.method.deep_view() == Some(
            "HEAD"@,
        ),
        m.method == Some(HTTPRouteRulesMatchesMethod::Post) ==> r.method.deep_view() == Some(
            "POST"@,
        ),
        m.method == Some(HTTPRouteRulesMatchesMethod::Put) ==> r.method.deep_view() == Some("PUT"@),
        m.method == Some(HTTPRouteRulesMatchesMethod::Delete) ==> r.method.deep_view() == Some(
            "DELETE"@,
        ),
        m.method == Some(HTTPRouteRulesMatchesMethod::Connect) ==> r.method.deep_view() == Some(
            "CONNECT"@,
        ),
        m.method == Some(HTTPRouteRulesMatchesMethod::Options) ==> r.method.deep_view() == Some(
            "OPTIONS"@,
        ),
        m.method == Some(HTTPRouteRulesMatchesMethod::Trace) ==> r.method.deep_view() == Some(
            "TRACE"@,
        ),
        m.method == Some(HTTPRouteRulesMatchesMethod::Patch) ==> r.method.deep_view() == Some(
            "PATCH"@,
        ),
{
    let method = match m.method {
        Some(x) => {
            let name = match x {
                HTTPRouteRulesMatchesMethod::Get => "GET",
                HTTPRouteRulesMatchesMethod::Head => "HEAD",
                HTTPRouteRulesMatchesMethod::Post => "POST",
                HTTPRouteRulesMatchesMethod::Put => "PUT",
                HTTPRouteRulesMatchesMethod::Delete => "DELETE",
                HTTPRouteRulesMatchesMethod::Connect => "CONNECT",
                HTTPRouteRulesMatchesMethod::Options => "OPTIONS",
                HTTPRouteRulesMatchesMethod::Trace => "TRACE",
                HTTPRouteRulesMatchesMethod::Patch => "PATCH",
            };
            Some(name.to_owned())
        },
        None => None,
    };
    let path = match &m.path {
        Some(p) => {
            let match_type = match p.type_ {
                Some(HTTPRouteRulesMatchesPathType::Exact) => HttpPathMatchType::Exact,
                Some(
                    HTTPRouteRulesMatchesPathType::RegularExpression,
                ) => HttpPathMatchType::RegularExpression,
                _ => HttpPathMatchType::PathPrefix,
            };
            Some(HttpPathMatch { match_type, value: opt_or(&p.value, "/").to_owned() })
        },
        None => None,
    };
    let headers = match &m.headers {
        Some(h) => map_vec(
            h,
            convert_header_match,
            Ghost(|x: HTTPRouteRulesMatchesHeadersView| x.converted()),
        ),
        None => Vec::new(),
    };
    let query_params = match &m.query_params {
        Some(q) => map_vec(
            q,
            convert_query_param_match,
            Ghost(|x: HTTPRouteRulesMatchesQueryParamsView| x.converted()),
        ),
        None => Vec::new(),
    };
    let r = HttpRouteMatch { method, path, headers, query_params };
    proof {
        let c = m.deep_view().converted();
        assert(r.deep_view().headers =~= c.headers);
        assert(r.deep_view().query_params =~= c.query_params);
    }
    r
}

// ---------------------------------------------------------------------------
// HTTP filters
// ---------------------------------------------------------------------------

impl HTTPHeaderView {
    pub open spec fn converted(self) -> HttpHeaderView {
        HttpHeaderView { name: self.name, value: self.value }
    }
}

/// The headers of an optional list.
pub open spec fn converted_headers(headers: Option<Seq<HTTPHeaderView>>) -> Seq<HttpHeaderView> {
    match headers {
        Some(h) => h.map_values(|x: HTTPHeaderView| x.converted()),
        None => Seq::empty(),
    }
}

impl HTTPHeaderModifierView {
    pub open spec fn converted(self) -> HeaderModifierConfigView {
        HeaderModifierConfigView {
            add: converted_headers(self.add),
            set: converted_headers(self.set),
            remove: match self.remove {
                Some(r) => r,
                None => Seq::empty(),
            },
        }
    }
}

fn convert_header(h: &HTTPHeader) -> (r: HttpHeader)
    ensures
        r.deep_view() == h.deep_view().converted(),
{
    HttpHeader { name: h.name.clone(), value: h.value.clone() }
}

fn convert_headers(headers: &Option<Vec<HTTPHeader>>) -> (r: Vec<HttpHeader>)
    ensures
        r.deep_view() == converted_headers(headers.deep_view()),
{
    let r = match headers {
        Some(h) => map_vec(h, convert_header, Ghost(|x: HTTPHeaderView| x.converted())),
        None => Vec::new(),
    };
    assert(r.deep_view() =~= converted_headers(headers.deep_view()));
    r
}

fn convert_header_modifier(hm: &HTTPHeaderModifier) -> (r: HeaderModifierConfig)
    ensures
        r.deep_view() == hm.deep_view().converted(),
{
    let r = HeaderModifierConfig {
        add: convert_headers(&hm.add),
        set: convert_headers(&hm.set),
        remove: match &hm.remove {
            Some(r) => r.dup(),
            None => Vec::new(),
        },
    };
    assert(r.deep_view().remove =~= hm.deep_view().converted().remove);
    r
}

impl HTTPRouteRulesFiltersPathView {
    /// The path rewrite, if the value that its type calls for is there.
    pub open spec fn converted(self) -> Option<HttpURLRewritePathView> {
        match self.type_ {
            HTTPRouteRulesFiltersPathType::ReplaceFullPath => match self.replace_full_path {
                Some(value) => Some(HttpURLRewritePathView::ReplaceFullPath { value }),
                None => None,
            },
            HTTPRouteRulesFiltersPathType::ReplacePrefixMatch => match self.replace_prefix_match {
                Some(value) => Some(HttpURLRewritePathView::ReplacePrefixMatch { value }),
                None => None,
            },
        }
    }
}

/// The path rewrite of an optional section.
pub open spec fn converted_path(p: Option<HTTPRouteRulesFiltersPathView>) -> Option<
    HttpURLRewritePathView,
> {
    match p {
        Some(x) => x.converted(),
        None => None,
    }
}

impl HTTPRouteRulesFiltersRequestRedirectView {
    /// The redirect; its status is 302 unless the route names one.
    pub open spec fn converted(self) -> RequestRedirectConfigView {
        RequestRedirectConfigView {
            scheme: match self.scheme {
                Some(HTTPRouteRulesFiltersRequestRedirectScheme::Http) => Some("http"@),
                Some(HTTPRouteRulesFiltersRequestRedirectScheme::Https) => Some("https"@),
                None => None,
            },
            hostname: self.hostname,
            port: match self.port {
                Some(p) => Some(p as u16),
                None => None,
            },
            path: converted_path(self.path),
            status_code: match self.status_code {
                Some(c) => c as u16,
                None => 302,
            },
        }
    }
}

impl HTTPRouteRulesFiltersUrlRewriteView {
    pub open spec fn converted(self) -> URLRewriteConfigView {
        URLRewriteConfigView { hostname: self.hostname, path: converted_path(self.path) }
    }
}

/// The name under which the data plane looks a Service up.
pub open spec fn dns_name(name: Seq<char>, ns: Seq<char>) -> Seq<char> {
    name + "."@ + ns + ".svc"@
}

/// The port of a backend reference, or `default`.
pub open spec fn port_or(port: Option<i32>, default: i32) -> u16 {
    match port {
        Some(p) => p as u16,
        None => default as u16,
    }
}

/// The weight of a backend reference; one unless the route names it.
pub open spec fn weight_of(weight: Option<i32>) -> u32 {
    match weight {
        Some(w) => w as u32,
        None => 1,
    }
}

impl HTTPRouteRulesFiltersRequestMirrorView {
    /// The mirror of a route in `ns`.
    pub open spec fn converted(self, ns: Seq<char>) -> RequestMirrorConfigView {
        RequestMirrorConfigView {
            backend_ref: BackendRefView {
                name: dns_name(self.backend_ref.name, text::or_text(self.backend_ref.namespace, ns)),
                port: port_or(self.backend_ref.port, 80),
                weight: 1,
                group: text::or_text(self.backend_ref.group, Seq::empty()),
                kind: text::or_text(self.backend_ref.kind, "Service"@),
                filters: Seq::empty(),
            },
        }
    }
}

impl HTTPRouteRulesFiltersView {
    /// The filter of a route in `ns`, or why there is none.
    pub open spec fn converted(self, ns: Seq<char>) -> Result<HttpRouteFilterView, ConvertErrorView> {
        let missing: Result<HttpRouteFilterView, ConvertErrorView> = Err(
            ConvertErrorView::MissingFilterConfig(self.type_),
        );
        match self.type_ {
            HTTPRouteRulesFiltersType::RequestHeaderModifier => match self.request_header_modifier {
                Some(x) => Ok(
                    HttpRouteFilterView::RequestHeaderModifier { config: x.converted() },
                ),
                None => missing,
            },
            HTTPRouteRulesFiltersType::ResponseHeaderModifier => match self.response_header_modifier {
                Some(x) => Ok(
                    HttpRouteFilterView::ResponseHeaderModifier { config: x.converted() },
                ),
                None => missing,
            },
            HTTPRouteRulesFiltersType::RequestRedirect => match self.request_redirect {
                Some(x) => Ok(HttpRouteFilterView::RequestRedirect { config: x.converted() }),
                None => missing,
            },
            HTTPRouteRulesFiltersType::UrlRewrite => match self.url_rewrite {
                Some(x) => Ok(HttpRouteFilterView::URLRewrite { config: x.converted() }),
                None => missing,
            },
            HTTPRouteRulesFiltersType::RequestMirror => match self.request_mirror {
                Some(x) => Ok(HttpRouteFilterView::RequestMirror { config: x.converted(ns) }),
                None => missing,
            },
            HTTPRouteRulesFiltersType::ExtensionRef => Err(ConvertErrorView::UnsupportedFilterType),
        }
    }
}

fn convert_path_modifier(p: &HTTPRouteRulesFiltersPath) -> (r: Option<HttpURLRewritePath>)
    ensures
        r.deep_view() == p.deep_view().converted(),
{
    match p.type_ {
        HTTPRouteRulesFiltersPathType::ReplaceFullPath => match &p.replace_full_path {
            Some(v) => Some(HttpURLRewritePath::ReplaceFullPath { value: v.clone() }),
            None => None,
        },
        HTTPRouteRulesFiltersPathType::ReplacePrefixMatch => match &p.replace_prefix_match {
            Some(v) => Some(HttpURLRewritePath::ReplacePrefixMatch { value: v.clone() }),
            None => None,
        },
    }
}

fn convert_path(p: &Option<HTTPRouteRulesFiltersPath>) -> (r: Option<HttpURLRewritePath>)
    ensures
        r.deep_view() == converted_path(p.deep_view()),
{
    match p {
        Some(x) => convert_path_modifier(x),
        None => None,
    }
}

fn convert_redirect_config(rr: &HTTPRouteRulesFiltersRequestRedirect) -> (r: RequestRedirectConfig)
    ensures
        r.deep_view() == rr.deep_view().converted(),
{
    let scheme = match rr.scheme {
        Some(HTTPRouteRulesFiltersRequestRedirectScheme::Http) => Some("http".to_owned()),
        Some(HTTPRouteRulesFiltersRequestRedirectScheme::Https) => Some("https".to_owned()),
        None => None,
    };
    RequestRedirectConfig {
        scheme,
        hostname: rr.hostname.dup(),
        port: match rr.port {
            Some(p) => Some(p as u16),
            None => None,
        },
        path: convert_path(&rr.path),
        status_code: match rr.status_code {
            Some(c) => c as u16,
            None => 302,
        },
    }
}

fn convert_url_rewrite_config(ur: &HTTPRouteRulesFiltersUrlRewrite) -> (r: URLRewriteConfig)
    ensures
        r.deep_view() == ur.deep_view().converted(),
{
    URLRewriteConfig { hostname: ur.hostname.dup(), path: convert_path(&ur.path) }
}

fn convert_mirror_config(rm: &HTTPRouteRulesFiltersRequestMirror, ns: &str) -> (r:
    RequestMirrorConfig)
    ensures
        r.deep_view() == rm.deep_view().converted(ns@),
{
    let b = &rm.backend_ref;
    let r = RequestMirrorConfig {
        backend_ref: BackendRef {
            name: backend_dns_name(b.name.as_str(), &b.namespace, ns),
            port: convert_port(b.port, 80),
            weight: 1,
            group: opt_or(&b.group, "").to_owned(),
            kind: opt_or(&b.kind, "Service").to_owned(),
            filters: Vec::new(),
        },
    };
    proof {
        reveal_strlit("");
        assert(""@ =~= Seq::<char>::empty());
        assert(r.deep_view().backend_ref.filters =~= Seq::empty());
    }
    r
}

fn convert_port(port: Option<i32>, default: i32) -> (r: u16)
    ensures
        r == port_or(port, default),
{
    match port {
        Some(p) => p as u16,
        None => default as u16,
    }
}

fn convert_weight(weight: Option<i32>) -> (r: u32)
    ensures
        r == weight_of(weight),
{
    match weight {
        Some(w) => w as u32,
        None => 1,
    }
}

/// The filter of a rule of a route in `ns`. A filter without the section that
/// its type names, or of a type that the data plane does not apply, is an
/// error.
pub fn convert_http_filter(f: &HTTPRouteRulesFilters, ns: &str) -> (r: Result<
    HttpRouteFilter,
    ConvertError,
>)
    ensures
        outcome(r) == f.deep_view().converted(ns@),
{
    match f.type_ {
        HTTPRouteRulesFiltersType::RequestHeaderModifier => match &f.request_header_modifier {
            Some(x) => Ok(
                HttpRouteFilter::RequestHeaderModifier { config: convert_header_modifier(x) },
            ),
            None => Err(ConvertError::MissingFilterConfig(f.type_)),
        },
        HTTPRouteRulesFiltersType::ResponseHeaderModifier => match &f.response_header_modifier {
            Some(x) => Ok(
                HttpRouteFilter::ResponseHeaderModifier { config: convert_header_modifier(x) },
            ),
            None => Err(ConvertError::MissingFilterConfig(f.type_)),
        },
        HTTPRouteRulesFiltersType::RequestRedirect => match &f.request_redirect {
            Some(x) => Ok(HttpRouteFilter::RequestRedirect { config: convert_redirect_config(x) }),
            None => Err(ConvertError::MissingFilterConfig(f.type_)),
        },
        HTTPRouteRulesFiltersType::UrlRewrite => match &f.url_rewrite {
            Some(x) => Ok(HttpRouteFilter::URLRewrite { config: convert_url_rewrite_config(x) }),
            None => Err(ConvertError::MissingFilterConfig(f.type_)),
        },
        HTTPRouteRulesFiltersType::RequestMirror => match &f.request_mirror {
            Some(x) => Ok(HttpRouteFilter::RequestMirror { config: convert_mirror_config(x, ns) }),
            None => Err(ConvertError::MissingFilterConfig(f.type_)),
        },
        HTTPRouteRulesFiltersType::ExtensionRef => Err(ConvertError::UnsupportedFilterType),
    }
}

// ---------------------------------------------------------------------------
// HTTP backends, timeouts, rules and routes
// ---------------------------------------------------------------------------

impl HTTPRouteRulesBackendRefsFiltersView {
    /// The filter of a single backend; only header changes apply there.
    pub open spec fn converted(self) -> Option<BackendFilterView> {
        match self.type_ {
            HTTPRouteRulesFiltersType::RequestHeaderModifier => match self.request_header_modifier {
                Some(x) => Some(
                    BackendFilterView::RequestHeaderModifier { config: x.converted() },
                ),
                None => None,
            },
            HTTPRouteRulesFiltersType::ResponseHeaderModifier => match self.response_header_modifier {
                Some(x) => Some(
                    BackendFilterView::ResponseHeaderModifier { config: x.converted() },
                ),
                None => None,
            },
            _ => None,
        }
    }
}

/// The filters of a backend reference, as far as they apply there.
pub open spec fn converted_backend_filters(
    filters: Option<Seq<HTTPRouteRulesBackendRefsFiltersView>>,
) -> Seq<BackendFilterView> {
    match filters {
        Some(f) => f.filter_map(|x: HTTPRouteRulesBackendRefsFiltersView| x.converted()),
        None => Seq::empty(),
    }
}

impl HTTPRouteRulesBackendRefsView {
    /// The backend of a route in `ns`.
    pub open spec fn converted(self, ns: Seq<char>) -> BackendRefView {
        BackendRefView {
            name: dns_name(self.name, text::or_text(self.namespace, ns)),
            port: port_or(self.port, 80),
            weight: weight_of(self.weight),
            group: text::or_text(self.group, Seq::empty()),
            kind: text::or_text(self.kind, "Service"@),
            filters: converted_backend_filters(self.filters),
        }
    }
}

/// The time limit of an optional duration text; none where it is no duration.
pub open spec fn time_limit(t: Option<Seq<char>>) -> Option<u64> {
    match t {
        Some(s) => match duration::duration_millis(s) {
            Some(ms) => Some(ms as u64),
            None => None,
        },
        None => None,
    }
}

impl HTTPRouteRulesTimeoutsView {
    pub open spec fn converted(self) -> HttpRouteTimeoutsView {
        HttpRouteTimeoutsView {
            request: time_limit(self.request),
            backend_request: time_limit(self.backend_request),
        }
    }
}

impl HTTPRouteRulesView {
    /// The rule of a route in `ns`; filters that do not convert are left out.
    pub open spec fn converted(self, ns: Seq<char>) -> HttpRouteRuleView {
        HttpRouteRuleView {
            matches: match self.matches {
                Some(m) => m.map_values(|x: HTTPRouteRulesMatchesView| x.converted()),
                None => Seq::empty(),
            },
            filters: match self.filters {
                Some(f) => f.filter_map(
                    |x: HTTPRouteRulesFiltersView|
                        match x.converted(ns) {
                            Ok(c) => Some(c),
                            Err(_) => None,
                        },
                ),
                None => Seq::empty(),
            },
            backend_refs: match self.backend_refs {
                Some(b) => b.map_values(|x: HTTPRouteRulesBackendRefsView| x.converted(ns)),
                None => Seq::empty(),
            },
            timeouts: match self.timeouts {
                Some(t) => Some(t.converted()),
                None => None,
            },
        }
    }
}

impl HTTPRouteView {
    pub open spec fn namespace(self) -> Seq<char> {
        text::or_text(self.metadata.namespace, "default"@)
    }

    /// The route's configuration under the Gateway `gateway_name` in
    /// `gateway_ns`.
    pub open spec fn converted(
        self,
        gateway_name: Seq<char>,
        gateway_ns: Seq<char>,
    ) -> HttpRouteConfigView {
        let ns = self.namespace();
        HttpRouteConfigView {
            parent_refs: parent_ref::attachments(
                parent_ref::refs_of(self.spec.parent_refs),
                gateway_name,
                gateway_ns,
            ),
            hostnames: match self.spec.hostnames {
                Some(h) => h,
                None => Seq::empty(),
            },
            rules: match self.spec.rules {
                Some(r) => r.map_values(|x: HTTPRouteRulesView| x.converted(ns)),
                None => Seq::empty(),
            },
        }
    }
}

fn convert_backend_ref_filter(f: &HTTPRouteRulesBackendRefsFilters) -> (r: Option<BackendFilter>)
    ensures
        r.deep_view() == f.deep_view().converted(),
{
    match f.type_ {
        HTTPRouteRulesFiltersType::RequestHeaderModifier => match &f.request_header_modifier {
            Some(x) => Some(
                BackendFilter::RequestHeaderModifier { config: convert_header_modifier(x) },
            ),
            None => None,
        },
        HTTPRouteRulesFiltersType::ResponseHeaderModifier => match &f.response_header_modifier {
            Some(x) => Some(
                BackendFilter::ResponseHeaderModifier { config: convert_header_modifier(x) },
            ),
            None => None,
        },
        _ => None,
    }
}

/// The filters of a backend reference, as far as they apply there.
pub fn convert_backend_ref_filters(filters: &Option<Vec<HTTPRouteRulesBackendRefsFilters>>) -> (r:
    Vec<BackendFilter>)
    ensures
        r.deep_view() == converted_backend_filters(filters.deep_view()),
{
    let r = match filters {
        Some(f) => filter_map_vec(
            f,
            convert_backend_ref_filter,
            Ghost(|x: HTTPRouteRulesBackendRefsFiltersView| x.converted()),
        ),
        None => Vec::new(),
    };
    assert(r.deep_view() =~= converted_backend_filters(filters.deep_view()));
    r
}

/// The backend that a reference of a route in `ns` names.
pub fn convert_http_backend_ref(br: &HTTPRouteRulesBackendRefs, ns: &str) -> (r: BackendRef)
    ensures
        r.deep_view() == br.deep_view().converted(ns@),
{
    proof {
        reveal_strlit("");
        assert(""@ =~= Seq::<char>::empty());
    }
    BackendRef {
        name: backend_dns_name(br.name.as_str(), &br.namespace, ns),
        port: convert_port(br.port, 80),
        weight: convert_weight(br.weight),
        group: opt_or(&br.group, "").to_owned(),
        kind: opt_or(&br.kind, "Service").to_owned(),
        filters: convert_backend_ref_filters(&br.filters),
    }
}

fn parse_gateway_duration(t: &Option<String>) -> (r: Option<u64>)
    ensures
        r == time_limit(t.deep_view()),
{
    match t {
        Some(s) => parse_duration(s.as_str()),
        None => None,
    }
}

/// The time limits of a rule.
pub fn convert_timeouts(t: &HTTPRouteRulesTimeouts) -> (r: HttpRouteTimeouts)
    ensures
        r.deep_view() == t.deep_view().converted(),
{
    HttpRouteTimeouts {
        request: parse_gateway_duration(&t.request),
        backend_request: parse_gateway_duration(&t.backend_request),
    }
}

/// The configuration of a rule of a route in `ns`.
pub fn convert_http_rule(rule: &HTTPRouteRules, ns: &str) -> (r: HttpRouteRule)
    ensures
        r.deep_view() == rule.deep_view().converted(ns@),
{
    let matches = match &rule.matches {
        Some(m) => map_vec(
            m,
            convert_http_match,
            Ghost(|x: HTTPRouteRulesMatchesView| x.converted()),
        ),
        None => Vec::new(),
    };
    let ghost fc = |x: HTTPRouteRulesFiltersView|
        match x.converted(ns@) {
            Ok(c) => Some(c),
            Err(_) => None,
        };
    let filters = match &rule.filters {
        Some(f) => filter_map_vec(
            f,
            |x: &HTTPRouteRulesFilters| -> (o: Option<HttpRouteFilter>)
                ensures
                    o.deep_view() == fc(x.deep_view())
                { convert_http_filter(x, ns).ok() },
            Ghost(fc),
        ),
        None => Vec::new(),
    };
    let backend_refs = match &rule.backend_refs {
        Some(b) => map_vec(
            b,
            |x: &HTTPRouteRulesBackendRefs| -> (o: BackendRef)
                ensures
                    o.deep_view() == x.deep_view().converted(ns@)
                { convert_http_backend_ref(x, ns) },
            Ghost(|x: HTTPRouteRulesBackendRefsView| x.converted(ns@)),
        ),
        None => Vec::new(),
    };
    let timeouts = match &rule.timeouts {
        Some(t) => Some(convert_timeouts(t)),
        None => None,
    };
    let r = HttpRouteRule { matches, filters, backend_refs, timeouts };
    proof {
        let c = rule.deep_view().converted(ns@);
        assert(r.deep_view().matches =~= c.matches);
        assert(r.deep_view().filters =~= c.filters);
        assert(r.deep_view().backend_refs =~= c.backend_refs);
    }
    r
}

/// The configuration of an HTTP route under the Gateway `gateway_name` in
/// `gateway_ns`.
pub fn convert_http_route(route: &HTTPRoute, gateway_name: &str, gateway_ns: &str) -> (r: Result<
    HttpRouteConfig,
    ConvertError,
>)
    ensures
        outcome(r) == Ok::<HttpRouteConfigView, ConvertErrorView>(
            route.deep_view().converted(gateway_name@, gateway_ns@),
        ),
{
    let ns = route_namespace(&route.metadata);
    let parent_refs = extract_parent_refs(&route.spec.parent_refs, gateway_name, gateway_ns);
    let hostnames = match &route.spec.hostnames {
        Some(h) => h.dup(),
        None => Vec::new(),
    };
    let rules = match &route.spec.rules {
        Some(rules) => map_vec(
            rules,
            |x: &HTTPRouteRules| -> (o: HttpRouteRule)
                ensures
                    o.deep_view() == x.deep_view().converted(ns@)
                { convert_http_rule(x, ns) },
            Ghost(|x: HTTPRouteRulesView| x.converted(ns@)),
        ),
        None => Vec::new(),
    };
    let r = HttpRouteConfig { parent_refs, hostnames, rules };
    proof {
        let c = route.deep_view().converted(gateway_name@, gateway_ns@);
        assert(r.deep_view().hostnames =~= c.hostnames);
        assert(r.deep_view().rules =~= c.rules);
    }
    Ok(r)
}

// ---------------------------------------------------------------------------
// TCP, TLS and UDP routes
// ---------------------------------------------------------------------------

impl L4BackendRefView {
    /// The backend of a route in `ns`. A port that is left open is
    /// `default_port`, or zero where the protocol has none.
    pub open spec fn converted(self, ns: Seq<char>, default_port: Option<i32>) -> BackendRefView {
        BackendRefView {
            name: dns_name(self.name, text::or_text(self.namespace, ns)),
            port: match default_port {
                Some(d) => port_or(self.port, d),
                None => port_or(self.port, 0),
            },
            weight: weight_of(self.weight),
            group: text::or_text(self.group, Seq::empty()),
            kind: text::or_text(self.kind, "Service"@),
            filters: Seq::empty(),
        }
    }
}

impl L4RouteRuleView {
    pub open spec fn converted(self, ns: Seq<char>, default_port: Option<i32>) -> Seq<
        BackendRefView,
    > {
        self.backend_refs.map_values(|b: L4BackendRefView| b.converted(ns, default_port))
    }
}

impl TCPRouteView {
    pub open spec fn namespace(self) -> Seq<char> {
        text::or_text(self.metadata.namespace, "default"@)
    }

    /// The route's configuration under the Gateway `gateway_name` in
    /// `gateway_ns`.
    pub open spec fn converted(
        self,
        gateway_name: Seq<char>,
        gateway_ns: Seq<char>,
    ) -> TcpRouteConfigView {
        let ns = self.namespace();
        TcpRouteConfigView {
            parent_refs: parent_ref::attachments(
                parent_ref::refs_of(self.spec.parent_refs),
                gateway_name,
                gateway_ns,
            ),
            rules: self.spec.rules.map_values(
                |x: L4RouteRuleView| TcpRouteRuleView { backend_refs: x.converted(ns, Some(80)) },
            ),
        }
    }
}

impl TLSRouteView {
    pub open spec fn namespace(self) -> Seq<char> {
        text::or_text(self.metadata.namespace, "default"@)
    }

    /// The route's configuration under the Gateway `gateway_name` in
    /// `gateway_ns`.
    pub open spec fn converted(
        self,
        gateway_name: Seq<char>,
        gateway_ns: Seq<char>,
    ) -> TlsRouteConfigView {
        let ns = self.namespace();
        TlsRouteConfigView {
            parent_refs: parent_ref::attachments(
                parent_ref::refs_of(self.spec.parent_refs),
                gateway_name,
                gateway_ns,
            ),
            hostnames: self.spec.hostnames,
            rules: self.spec.rules.map_values(
                |x: L4RouteRuleView| TlsRouteRuleView { backend_refs: x.converted(ns, Some(443)) },
            ),
        }
    }
}

impl UDPRouteView {
    pub open spec fn namespace(self) -> Seq<char> {
        text::or_text(self.metadata.namespace, "default"@)
    }

    /// The route's configuration under the Gateway `gateway_name` in
    /// `gateway_ns`.
    pub open spec fn converted(
        self,
        gateway_name: Seq<char>,
        gateway_ns: Seq<char>,
    ) -> UdpRouteConfigView {
        let ns = self.namespace();
        UdpRouteConfigView {
            parent_refs: parent_ref::attachments(
                parent_ref::refs_of(self.spec.parent_refs),
                gateway_name,
                gateway_ns,
            ),
            rules: self.spec.rules.map_values(
                |x: L4RouteRuleView| UdpRouteRuleView { backend_refs: x.converted(ns, None) },
            ),
        }
    }
}

/// The backend that a reference of a TCP, TLS or UDP route in `ns` names.
/// `default_port` is the port that the protocol implies, if any.
pub fn convert_l4_backend_ref(br: &L4BackendRef, ns: &str, default_port: Option<i32>) -> (r:
    BackendRef)
    ensures
        r.deep_view() == br.deep_view().converted(ns@, default_port),
{
    let default: i32 = match default_port {
        Some(d) => d,
        None => 0,
    };
    let r = BackendRef {
        name: backend_dns_name(br.name.as_str(), &br.namespace, ns),
        port: convert_port(br.port, default),
        weight: convert_weight(br.weight),
        group: opt_or(&br.group, "").to_owned(),
        kind: opt_or(&br.kind, "Service").to_owned(),
        filters: Vec::new(),
    };
    proof {
        reveal_strlit("");
        assert(""@ =~= Seq::<char>::empty());
        assert(r.deep_view().filters =~= Seq::empty());
    }
    r
}

fn convert_l4_rule(rule: &L4RouteRule, ns: &str, default_port: Option<i32>) -> (r: Vec<BackendRef>)
    ensures
        r.deep_view() == rule.deep_view().converted(ns@, default_port),
{
    let r = map_vec(
        &rule.backend_refs,
        |b: &L4BackendRef| -> (o: BackendRef)
            ensures
                o.deep_view() == b.deep_view().converted(ns@, default_port)
            { convert_l4_backend_ref(b, ns, default_port) },
        Ghost(|b: L4BackendRefView| b.converted(ns@, default_port)),
    );
    assert(r.deep_view() =~= rule.deep_view().converted(ns@, default_port));
    r
}

/// The configuration of a TCP route under the Gateway `gateway_name` in
/// `gateway_ns`.
pub fn convert_tcp_route(route: &TCPRoute, gateway_name: &str, gateway_ns: &str) -> (r: Result<
    TcpRouteConfig,
    ConvertError,
>)
    ensures
        outcome(r) == Ok::<TcpRouteConfigView, ConvertErrorView>(
            route.deep_view().converted(gateway_name@, gateway_ns@),
        ),
{
    let ns = route_namespace(&route.metadata);
    let ghost g = |x: L4RouteRuleView|
        TcpRouteRuleView { backend_refs: x.converted(ns@, Some(80)) };
    let rules = map_vec(
        &route.spec.rules,
        |x: &L4RouteRule| -> (o: TcpRouteRule)
            ensures
                o.deep_view() == g(x.deep_view())
            { TcpRouteRule { backend_refs: convert_l4_rule(x, ns, Some(80)) } },
        Ghost(g),
    );
    let r = TcpRouteConfig {
        parent_refs: extract_parent_refs(&route.spec.parent_refs, gateway_name, gateway_ns),
        rules,
    };
    assert(r.deep_view().rules =~= route.deep_view().converted(gateway_name@, gateway_ns@).rules);
    Ok(r)
}

/// The configuration of a TLS route under the Gateway `gateway_name` in
/// `gateway_ns`.
pub fn convert_tls_route(route: &TLSRoute, gateway_name: &str, gateway_ns: &str) -> (r: Result<
    TlsRouteConfig,
    ConvertError,
>)
    ensures
        outcome(r) == Ok::<TlsRouteConfigView, ConvertErrorView>(
            route.deep_view().converted(gateway_name@, gateway_ns@),
        ),
{
    let ns = route_namespace(&route.metadata);
    let ghost g = |x: L4RouteRuleView|
        TlsRouteRuleView { backend_refs: x.converted(ns@, Some(443)) };
    let rules = map_vec(
        &route.spec.rules,
        |x: &L4RouteRule| -> (o: TlsRouteRule)
            ensures
                o.deep_view() == g(x.deep_view())
            { TlsRouteRule { backend_refs: convert_l4_rule(x, ns, Some(443)) } },
        Ghost(g),
    );
    let r = TlsRouteConfig {
        parent_refs: extract_parent_refs(&route.spec.parent_refs, gateway_name, gateway_ns),
        hostnames: route.spec.hostnames.dup(),
        rules,
    };
    assert(r.deep_view().rules =~= route.deep_view().converted(gateway_name@, gateway_ns@).rules);
    Ok(r)
}

/// The configuration of a UDP route under the Gateway `gateway_name` in
/// `gateway_ns`.
pub fn convert_udp_route(route: &UDPRoute, gateway_name: &str, gateway_ns: &str) -> (r: Result<
    UdpRouteConfig,
    ConvertError,
>)
    ensures
        outcome(r) == Ok::<UdpRouteConfigView, ConvertErrorView>(
            route.deep_view().converted(gateway_name@, gateway_ns@),
        ),
{
    let ns = route_namespace(&route.metadata);
    let ghost g = |x: L4RouteRuleView| UdpRouteRuleView { backend_refs: x.converted(ns@, None) };
    let rules = map_vec(
        &route.spec.rules,
        |x: &L4RouteRule| -> (o: UdpRouteRule)
            ensures
                o.deep_view() == g(x.deep_view())
            { UdpRouteRule { backend_refs: convert_l4_rule(x, ns, None) } },
        Ghost(g),
    );
    let r = UdpRouteConfig {
        parent_refs: extract_parent_refs(&route.spec.parent_refs, gateway_name, gateway_ns),
        rules,
    };
    assert(r.deep_view().rules =~= route.deep_view().converted(gateway_name@, gateway_ns@).rules);
    Ok(r)
}

// ---------------------------------------------------------------------------
// Names
// ---------------------------------------------------------------------------

/// The name `{service}.{namespace}.svc` of a backend; the namespace is the
/// route's where the reference leaves it open.
pub fn backend_dns_name(name: &str, namespace: &Option<String>, route_namespace: &str) -> (r: String)
    ensures
        r@ == dns_name(name@, text::or_text(namespace.deep_view(), route_namespace@)),
{
    let ns = opt_or(namespace, route_namespace);
    service_dns_name(name, ns)
}

/// The name `{service}.{namespace}.svc`.
pub fn service_dns_name(name: &str, ns: &str) -> (r: String)
    ensures
        r@ == dns_name(name@, ns@),
{
    let mut s = name.to_owned();
    s.append(".");
    s.append(ns);
    s.append(".svc");
    s
}

/// The service and namespace of a backend name: what stands before `.svc`,
/// cut at its last dot.
pub open spec fn parsed_dns_name(s: Seq<char>) -> Option<(Seq<char>, Seq<char>)> {
    if s.len() >= 4 && s.skip(s.len() - 4) == ".svc"@ {
        let stem = s.take(s.len() - 4);
        let dot = text::last_index(stem, '.');
        if dot >= 0 {
            Some((stem.take(dot), stem.skip(dot + 1)))
        } else {
            None
        }
    } else {
        None
    }
}

/// The service and namespace of a name of the form
/// `{service}.{namespace}.svc`.
pub fn parse_backend_dns_name(dns_name: &str) -> (r: Option<(String, String)>)
    ensures
        r.deep_view() == parsed_dns_name(dns_name@),
{
    let v = chars_of(dns_name);
    proof {
        reveal_strlit(".svc");
    }
    let n: usize = v.len();
    if n < 4 || v[n - 4] != '.' || v[n - 3] != 's' || v[n - 2] != 'v' || v[n - 1] != 'c' {
        proof {
            if n >= 4 && dns_name@.skip(n - 4) == ".svc"@ {
                let t = dns_name@.skip(n - 4);
                assert(t[0] == v@[n - 4] && t[1] == v@[n - 3] && t[2] == v@[n - 2] && t[3] == v@[n
                    - 1]);
            }
        }
        return None;
    }
    proof {
        assert(dns_name@.skip(n - 4) =~= ".svc"@);
    }
    let mut stem: Vec<char> = Vec::new();
    let mut i: usize = 0;
    while i < n - 4
        invariant
            4 <= n == v@.len(),
            i <= n - 4,
            stem@ == v@.take(i as int),
        decreases n - i,
    {
        stem.push(v[i]);
        i += 1;
        assert(stem@ =~= v@.take(i as int));
    }
    match find_last(&stem, '.') {
        None => None,
        Some(dot) => {
            let svc = dns_name.substring_char(0, dot);
            let ns = dns_name.substring_char(dot + 1, n - 4);
            proof {
                assert(svc@ =~= stem@.take(dot as int));
                assert(ns@ =~= stem@.skip(dot + 1));
            }
            Some((svc.to_owned(), ns.to_owned()))
        },
    }
}

/// The namespace of an object; `default` where it has none.
pub fn route_namespace(meta: &ObjectMeta) -> (r: &str)
    ensures
        r@ == text::or_text(meta.deep_view().namespace, "default"@),
{
    opt_or(&meta.namespace, "default")
}

/// The name of a backend gives its service and namespace back, where the
/// namespace has no dot, which Kubernetes does not allow it.
pub proof fn law_dns_name_round_trip(name: Seq<char>, ns: Seq<char>)
    requires
        !ns.contains('.'),
    ensures
        parsed_dns_name(dns_name(name, ns)) == Some((name, ns)),
{
    reveal_strlit(".");
    reveal_strlit(".svc");
    let s = dns_name(name, ns);
    let stem = name + seq!['.'] + ns;
    assert("."@ =~= seq!['.']);
    assert(s.len() == stem.len() + 4);
    assert(s.skip(s.len() - 4) =~= ".svc"@);
    assert(s.take(s.len() - 4) =~= stem);
    text::lemma_last_index(stem, '.');
    let dot = text::last_index(stem, '.');
    assert(stem[name.len() as int] == '.');
    if dot > name.len() {
        assert(stem[dot] == ns[dot - name.len() - 1]);
        assert(ns.contains('.'));
    }
    assert(dot == name.len());
    assert(stem.take(dot) =~= name);
    assert(stem.skip(dot + 1) =~= ns);
}

/// A listener that the data plane can serve is served, whatever stands beside
/// it.
pub proof fn law_listeners_are_isolated(gateway: GatewayView, certs: CertDataView, i: int)
    requires
        0 <= i < gateway.spec.listeners.len(),
        protocol_named(gateway.spec.listeners[i].protocol) is Some,
    ensures
        gateway.converted(certs) is Ok,
        gateway.converted(certs)->Ok_0.listeners.contains(
            gateway.spec.listeners[i].converted(gateway.namespace(), certs)->0,
        ),
{
    let ns = gateway.namespace();
    let f = |l: GatewayListenersView| l.converted(ns, certs);
    let l = gateway.spec.listeners[i];
    assert(gateway.spec.listeners.contains(l));
    lists::lemma_filter_map_contains(gateway.spec.listeners, f, l, f(l)->0);
    assert(converted_listeners(gateway.spec.listeners, ns, certs).contains(f(l)->0));
}

// ---------------------------------------------------------------------------
// Laws of HTTP conversion
// ---------------------------------------------------------------------------

/// Matches keep their methods apart: each converts to its own name, and a match
/// on any method to none.
pub proof fn law_methods_stay_apart(a: HTTPRouteRulesMatchesView, b: HTTPRouteRulesMatchesView)
    ensures
        a.converted().method == b.converted().method <==> a.method == b.method,
        a.converted().method is None <==> a.method is None,
        a.method == Some(HTTPRouteRulesMatchesMethod::Get) ==> a.converted().method == Some("GET"@),
        a.method == Some(HTTPRouteRulesMatchesMethod::Head) ==> a.converted().method == Some(
            "HEAD"@,
        ),
        a.method == Some(HTTPRouteRulesMatchesMethod::Post) ==> a.converted().method == Some(
            "POST"@,
        ),
        a.method == Some(HTTPRouteRulesMatchesMethod::Put) ==> a.converted().method == Some("PUT"@),
        a.method == Some(HTTPRouteRulesMatchesMethod::Delete) ==> a.converted().method == Some(
            "DELETE"@,
        ),
        a.method == Some(HTTPRouteRulesMatchesMethod::Connect) ==> a.converted().method == Some(
            "CONNECT"@,
        ),
        a.method == Some(HTTPRouteRulesMatchesMethod::Options) ==> a.converted().method == Some(
            "OPTIONS"@,
        ),
        a.method == Some(HTTPRouteRulesMatchesMethod::Trace) ==> a.converted().method == Some(
            "TRACE"@,
        ),
        a.method == Some(HTTPRouteRulesMatchesMethod::Patch) ==> a.converted().method == Some(
            "PATCH"@,
        ),
{
    reveal_strlit("GET");
    reveal_strlit("HEAD");
    reveal_strlit("POST");
    reveal_strlit("PUT");
    reveal_strlit("DELETE");
    reveal_strlit("CONNECT");
    reveal_strlit("OPTIONS");
    reveal_strlit("TRACE");
    reveal_strlit("PATCH");
    assert("GET"@.len() == 3 && "PUT"@.len() == 3 && "GET"@[0] == 'G' && "PUT"@[0] == 'P');
    assert("HEAD"@.len() == 4 && "POST"@.len() == 4 && "HEAD"@[0] == 'H' && "POST"@[0] == 'P');
    assert("TRACE"@.len() == 5 && "PATCH"@.len() == 5 && "TRACE"@[0] == 'T' && "PATCH"@[0] == 'P');
    assert("DELETE"@.len() == 6);
    assert("CONNECT"@.len() == 7 && "OPTIONS"@.len() == 7 && "CONNECT"@[0] == 'C' && "OPTIONS"@[0]
        == 'O');
}

/// A match keeps its path, and each of its headers and query parameters in
/// place, with the way in which each is compared. A path that is left open is
/// the prefix `/`; values are compared exactly unless they are expressions.
pub proof fn law_matches_keep_their_conditions(m: HTTPRouteRulesMatchesView)
    ensures
        ({
            let c = m.converted();
            &&& c.path is Some <==> m.path is Some
            &&& m.path matches Some(p) ==> {
                let q = c.path->0;
                &&& p.value is Some ==> q.value == p.value->0
                &&& p.value is None ==> q.value == "/"@
                &&& q.match_type == HttpPathMatchType::Exact <==> p.type_ == Some(
                    HTTPRouteRulesMatchesPathType::Exact,
                )
                &&& q.match_type == HttpPathMatchType::RegularExpression <==> p.type_ == Some(
                    HTTPRouteRulesMatchesPathType::RegularExpression,
                )
            }
            &&& m.headers is None ==> c.headers.len() == 0
            &&& m.headers matches Some(h) ==> c.headers.len() == h.len() && forall|i: int|
                0 <= i < h.len() ==> {
                    &&& (#[trigger] c.headers[i]).name == h[i].name
                    &&& c.headers[i].value == h[i].value
                    &&& c.headers[i].match_type == StringMatchType::RegularExpression
                        <==> h[i].type_ == Some(HTTPRouteRulesMatchesValueType::RegularExpression)
                }
            &&& m.query_params is None ==> c.query_params.len() == 0
            &&& m.query_params matches Some(q) ==> c.query_params.len() == q.len() && forall|
                i: int,
            |
                0 <= i < q.len() ==> {
                    &&& (#[trigger] c.query_params[i]).name == q[i].name
                    &&& c.query_params[i].value == q[i].value
                    &&& c.query_params[i].match_type == StringMatchType::RegularExpression
                        <==> q[i].type_ == Some(HTTPRouteRulesMatchesValueType::RegularExpression)
                }
        }),
{
}

/// Whether two lists of headers hold the same names and values in the same
/// order.
pub open spec fn same_headers(a: Option<Seq<HTTPHeaderView>>, b: Seq<HttpHeaderView>) -> bool {
    &&& b.len() == (if a is Some {
        a->0.len()
    } else {
        0
    })
    &&& forall|i: int|
        0 <= i < b.len() ==> (#[trigger] b[i]).name == a->0[i].name && b[i].value == a->0[i].value
}

/// A change of headers adds, sets and removes what the route says, each for
/// itself.
pub proof fn law_header_changes_are_kept(x: HTTPHeaderModifierView)
    ensures
        same_headers(x.add, x.converted().add),
        same_headers(x.set, x.converted().set),
        x.remove is None ==> x.converted().remove.len() == 0,
        x.remove is Some ==> x.converted().remove == x.remove->0,
{
}

/// A path rewrite keeps the value that its type calls for, and is none where
/// that value is missing, whatever the other value is.
pub proof fn law_path_rewrites_are_kept(
    p: HTTPRouteRulesFiltersPathView,
    full: Option<Seq<char>>,
    prefix: Option<Seq<char>>,
)
    ensures
        p.type_ == HTTPRouteRulesFiltersPathType::ReplaceFullPath ==> {
            &&& p.replace_full_path matches Some(value) ==> p.converted() == Some(
                HttpURLRewritePathView::ReplaceFullPath { value },
            )
            &&& p.replace_full_path is None ==> p.converted() is None
            &&& (HTTPRouteRulesFiltersPathView { replace_prefix_match: prefix, ..p }).converted()
                == p.converted()
        },
        p.type_ == HTTPRouteRulesFiltersPathType::ReplacePrefixMatch ==> {
            &&& p.replace_prefix_match matches Some(value) ==> p.converted() == Some(
                HttpURLRewritePathView::ReplacePrefixMatch { value },
            )
            &&& p.replace_prefix_match is None ==> p.converted() is None
            &&& (HTTPRouteRulesFiltersPathView { replace_full_path: full, ..p }).converted()
                == p.converted()
        },
{
}

/// A redirect keeps its scheme, host, port and path; its status is the one it
/// names, or 302. A rewrite keeps its host and path.
pub proof fn law_redirects_and_rewrites_are_kept(
    r: HTTPRouteRulesFiltersRequestRedirectView,
    u: HTTPRouteRulesFiltersUrlRewriteView,
)
    ensures
        r.scheme is None ==> r.converted().scheme is None,
        r.scheme == Some(HTTPRouteRulesFiltersRequestRedirectScheme::Http)
            ==> r.converted().scheme == Some("http"@),
        r.scheme == Some(HTTPRouteRulesFiltersRequestRedirectScheme::Https)
            ==> r.converted().scheme == Some("https"@),
        r.converted().hostname == r.hostname,
        r.port is None ==> r.converted().port is None,
        r.port matches Some(p) ==> 0 <= p <= u16::MAX ==> r.converted().port == Some(p as u16),
        r.path is None ==> r.converted().path is None,
        r.path matches Some(p) ==> r.converted().path == p.converted(),
        r.status_code is None ==> r.converted().status_code == 302,
        r.status_code matches Some(c) ==> 0 <= c <= u16::MAX ==> r.converted().status_code == c,
        u.converted().hostname == u.hostname,
        u.path is None ==> u.converted().path is None,
        u.path matches Some(p) ==> u.converted().path == p.converted(),
{
}

/// A filter converts by its type alone to a filter of the same type, with what
/// the section of that type says; without the section it does not convert. A
/// type that the data plane does not apply never converts.
pub proof fn law_filters_keep_their_type(f: HTTPRouteRulesFiltersView, ns: Seq<char>)
    ensures
        f.type_ == HTTPRouteRulesFiltersType::RequestHeaderModifier ==> match f.request_header_modifier {
            Some(x) => f.converted(ns) == Ok::<HttpRouteFilterView, ConvertErrorView>(
                HttpRouteFilterView::RequestHeaderModifier { config: x.converted() },
            ),
            None => f.converted(ns) == Err::<HttpRouteFilterView, ConvertErrorView>(
                ConvertErrorView::MissingFilterConfig(f.type_),
            ),
        },
        f.type_ == HTTPRouteRulesFiltersType::ResponseHeaderModifier ==> match f.response_header_modifier {
            Some(x) => f.converted(ns) == Ok::<HttpRouteFilterView, ConvertErrorView>(
                HttpRouteFilterView::ResponseHeaderModifier { config: x.converted() },
            ),
            None => f.converted(ns) == Err::<HttpRouteFilterView, ConvertErrorView>(
                ConvertErrorView::MissingFilterConfig(f.type_),
            ),
        },
        f.type_ == HTTPRouteRulesFiltersType::RequestRedirect ==> match f.request_redirect {
            Some(x) => f.converted(ns) == Ok::<HttpRouteFilterView, ConvertErrorView>(
                HttpRouteFilterView::RequestRedirect { config: x.converted() },
            ),
            None => f.converted(ns) == Err::<HttpRouteFilterView, ConvertErrorView>(
                ConvertErrorView::MissingFilterConfig(f.type_),
            ),
        },
        f.type_ == HTTPRouteRulesFiltersType::UrlRewrite ==> match f.url_rewrite {
            Some(x) => f.converted(ns) == Ok::<HttpRouteFilterView, ConvertErrorView>(
                HttpRouteFilterView::URLRewrite { config: x.converted() },
            ),
            None => f.converted(ns) == Err::<HttpRouteFilterView, ConvertErrorView>(
                ConvertErrorView::MissingFilterConfig(f.type_),
            ),
        },
        f.type_ == HTTPRouteRulesFiltersType::RequestMirror ==> match f.request_mirror {
            Some(x) => f.converted(ns) == Ok::<HttpRouteFilterView, ConvertErrorView>(
                HttpRouteFilterView::RequestMirror { config: x.converted(ns) },
            ),
            None => f.converted(ns) == Err::<HttpRouteFilterView, ConvertErrorView>(
                ConvertErrorView::MissingFilterConfig(f.type_),
            ),
        },
        f.type_ == HTTPRouteRulesFiltersType::ExtensionRef ==> f.converted(ns) == Err::<
            HttpRouteFilterView,
            ConvertErrorView,
        >(ConvertErrorView::UnsupportedFilterType),
{
}

/// Whether a backend is the one that a reference of a route in `ns` names:
/// `{service}.{namespace}.svc`, the namespace the route's where it is left
/// open, with the port and weight that the reference gives or else these, and
/// a Service of the core group unless it says otherwise.
pub open spec fn names_backend(
    b: BackendRefView,
    ns: Seq<char>,
    name: Seq<char>,
    namespace: Option<Seq<char>>,
    port: Option<i32>,
    default_port: int,
    weight: Option<i32>,
    group: Option<Seq<char>>,
    kind: Option<Seq<char>>,
) -> bool {
    &&& namespace matches Some(n) ==> b.name == name + "."@ + n + ".svc"@
    &&& namespace is None ==> b.name == name + "."@ + ns + ".svc"@
    &&& port matches Some(p) ==> 0 <= p <= u16::MAX ==> b.port == p
    &&& port is None ==> b.port == default_port
    &&& weight matches Some(w) ==> w >= 0 ==> b.weight == w
    &&& weight is None ==> b.weight == 1
    &&& group matches Some(g) ==> b.group == g
    &&& group is None ==> b.group.len() == 0
    &&& kind matches Some(k) ==> b.kind == k
    &&& kind is None ==> b.kind == "Service"@
}

/// Every backend reference, of whatever kind of route, and every mirror names
/// the backend that it says. Ports that are left open are 80 for HTTP and TCP,
/// 443 for TLS and none for UDP.
pub proof fn law_backends_are_named(
    h: HTTPRouteRulesBackendRefsView,
    m: HTTPRouteRulesFiltersRequestMirrorView,
    l: L4BackendRefView,
    ns: Seq<char>,
    default_port: u16,
)
    ensures
        names_backend(
            h.converted(ns),
            ns,
            h.name,
            h.namespace,
            h.port,
            80,
            h.weight,
            h.group,
            h.kind,
        ),
        names_backend(
            m.converted(ns).backend_ref,
            ns,
            m.backend_ref.name,
            m.backend_ref.namespace,
            m.backend_ref.port,
            80,
            None,
            m.backend_ref.group,
            m.backend_ref.kind,
        ),
        m.converted(ns).backend_ref.filters.len() == 0,
        names_backend(
            l.converted(ns, Some(default_port as i32)),
            ns,
            l.name,
            l.namespace,
            l.port,
            default_port as int,
            l.weight,
            l.group,
            l.kind,
        ),
        names_backend(
            l.converted(ns, None),
            ns,
            l.name,
            l.namespace,
            l.port,
            0,
            l.weight,
            l.group,
            l.kind,
        ),
        l.converted(ns, None).filters.len() == 0,
{
}

/// The filters of a backend are its changes of headers, in order; nothing else
/// applies to a single backend, and none of them depends on its neighbours.
pub proof fn law_backend_filters(
    a: Seq<HTTPRouteRulesBackendRefsFiltersView>,
    x: HTTPRouteRulesBackendRefsFiltersView,
)
    ensures
        converted_backend_filters(None).len() == 0,
        converted_backend_filters(Some(Seq::empty())).len() == 0,
        converted_backend_filters(Some(a.push(x))) == converted_backend_filters(Some(a)) + (if x.type_
            == HTTPRouteRulesFiltersType::RequestHeaderModifier && x.request_header_modifier is Some {
            seq![
                BackendFilterView::RequestHeaderModifier {
                    config: x.request_header_modifier->0.converted(),
                },
            ]
        } else if x.type_ == HTTPRouteRulesFiltersType::ResponseHeaderModifier
            && x.response_header_modifier is Some {
            seq![
                BackendFilterView::ResponseHeaderModifier {
                    config: x.response_header_modifier->0.converted(),
                },
            ]
        } else {
            Seq::empty()
        }),
{
    let f = |y: HTTPRouteRulesBackendRefsFiltersView| y.converted();
    reveal_with_fuel(Seq::filter_map, 2);
    assert(a.push(x).drop_last() =~= a);
    assert(a.push(x).last() == x);
    assert(converted_backend_filters(Some(a.push(x))) == a.push(x).filter_map(f));
    assert(converted_backend_filters(Some(a)) == a.filter_map(f));
    assert(a.filter_map(f) + Seq::empty() =~= a.filter_map(f));
}

/// A rule converts its matches and backends one for one, in order, and keeps
/// each filter that converts, in order. Its time limits are those of the texts
/// that it gives, each in its own place.
pub proof fn law_rules_convert_part_by_part(
    rule: HTTPRouteRulesView,
    filters: Seq<HTTPRouteRulesFiltersView>,
    f: HTTPRouteRulesFiltersView,
    ns: Seq<char>,
)
    ensures
        rule.matches is None ==> rule.converted(ns).matches.len() == 0,
        rule.matches matches Some(m) ==> rule.converted(ns).matches.len() == m.len() && forall|
            i: int,
        |
            0 <= i < m.len() ==> #[trigger] rule.converted(ns).matches[i] == m[i].converted(),
        rule.backend_refs is None ==> rule.converted(ns).backend_refs.len() == 0,
        rule.backend_refs matches Some(b) ==> rule.converted(ns).backend_refs.len() == b.len()
            && forall|i: int|
            0 <= i < b.len() ==> #[trigger] rule.converted(ns).backend_refs[i] == b[i].converted(ns),
        (HTTPRouteRulesView { filters: None, ..rule }).converted(ns).filters.len() == 0,
        (HTTPRouteRulesView { filters: Some(Seq::empty()), ..rule }).converted(ns).filters.len() == 0,
        (HTTPRouteRulesView { filters: Some(filters.push(f)), ..rule }).converted(ns).filters == (
        HTTPRouteRulesView { filters: Some(filters), ..rule }).converted(ns).filters + (
        match f.converted(ns) {
            Ok(c) => seq![c],
            Err(_) => Seq::empty(),
        }),
        rule.timeouts is None ==> rule.converted(ns).timeouts is None,
        rule.timeouts matches Some(t) ==> {
            let c = rule.converted(ns).timeouts;
            &&& c is Some
            &&& t.request is None ==> c->0.request is None
            &&& t.request matches Some(d) ==> c->0.request is Some
                == duration::duration_millis(d) is Some
            &&& t.request matches Some(d) ==> duration::duration_millis(d) matches Some(ms)
                ==> ms <= u64::MAX ==> c->0.request == Some(ms as u64)
            &&& t.backend_request is None ==> c->0.backend_request is None
            &&& t.backend_request matches Some(d) ==> c->0.backend_request is Some
                == duration::duration_millis(d) is Some
            &&& t.backend_request matches Some(d) ==> duration::duration_millis(d) matches Some(ms)
                ==> ms <= u64::MAX ==> c->0.backend_request == Some(ms as u64)
        },
{
    let g = |x: HTTPRouteRulesFiltersView|
        match x.converted(ns) {
            Ok(c) => Some(c),
            Err(_) => None,
        };
    reveal_with_fuel(Seq::filter_map, 2);
    let more = filters.push(f);
    assert(more.drop_last() =~= filters);
    assert(more.last() == f);
    let with_more = (HTTPRouteRulesView { filters: Some(more), ..rule }).converted(ns).filters;
    let without = (HTTPRouteRulesView { filters: Some(filters), ..rule }).converted(ns).filters;
    assert(with_more == more.filter_map(g));
    assert(without == filters.filter_map(g));
    assert(without + Seq::empty() =~= without);
}

/// Routes of every kind keep their host names and rules, in order; the
/// namespace of a route is `default` where it has none.
pub proof fn law_routes_convert_rule_by_rule(
    h: HTTPRouteView,
    tcp: TCPRouteView,
    tls: TLSRouteView,
    udp: UDPRouteView,
    gateway_name: Seq<char>,
    gateway_ns: Seq<char>,
)
    ensures
        ({
            let c = h.converted(gateway_name, gateway_ns);
            let ns = match h.metadata.namespace {
                Some(n) => n,
                None => "default"@,
            };
            &&& h.spec.hostnames is None ==> c.hostnames.len() == 0
            &&& h.spec.hostnames is Some ==> c.hostnames == h.spec.hostnames->0
            &&& h.spec.rules is None ==> c.rules.len() == 0
            &&& h.spec.rules matches Some(r) ==> c.rules.len() == r.len() && forall|i: int|
                0 <= i < r.len() ==> #[trigger] c.rules[i] == r[i].converted(ns)
        }),
        ({
            let c = tcp.converted(gateway_name, gateway_ns);
            let ns = match tcp.metadata.namespace {
                Some(n) => n,
                None => "default"@,
            };
            &&& c.rules.len() == tcp.spec.rules.len()
            &&& forall|i: int|
                0 <= i < c.rules.len() ==> (#[trigger] c.rules[i]).backend_refs.len()
                    == tcp.spec.rules[i].backend_refs.len()
            &&& forall|i: int, j: int|
                0 <= i < c.rules.len() && 0 <= j < c.rules[i].backend_refs.len()
                    ==> #[trigger] c.rules[i].backend_refs[j]
                    == tcp.spec.rules[i].backend_refs[j].converted(ns, Some(80))
        }),
        ({
            let c = tls.converted(gateway_name, gateway_ns);
            let ns = match tls.metadata.namespace {
                Some(n) => n,
                None => "default"@,
            };
            &&& c.hostnames == tls.spec.hostnames
            &&& c.rules.len() == tls.spec.rules.len()
            &&& forall|i: int|
                0 <= i < c.rules.len() ==> (#[trigger] c.rules[i]).backend_refs.len()
                    == tls.spec.rules[i].backend_refs.len()
            &&& forall|i: int, j: int|
                0 <= i < c.rules.len() && 0 <= j < c.rules[i].backend_refs.len()
                    ==> #[trigger] c.rules[i].backend_refs[j]
                    == tls.spec.rules[i].backend_refs[j].converted(ns, Some(443))
        }),
        ({
            let c = udp.converted(gateway_name, gateway_ns);
            let ns = match udp.metadata.namespace {
                Some(n) => n,
                None => "default"@,
            };
            &&& c.rules.len() == udp.spec.rules.len()
            &&& forall|i: int|
                0 <= i < c.rules.len() ==> (#[trigger] c.rules[i]).backend_refs.len()
                    == udp.spec.rules[i].backend_refs.len()
            &&& forall|i: int, j: int|
                0 <= i < c.rules.len() && 0 <= j < c.rules[i].backend_refs.len()
                    ==> #[trigger] c.rules[i].backend_refs[j]
                    == udp.spec.rules[i].backend_refs[j].converted(ns, None)
        }),
{
}

// ---------------------------------------------------------------------------
// Laws of Gateway conversion
// ---------------------------------------------------------------------------

/// The data plane speaks five protocols, by their names; a listener of another
/// has no counterpart.
pub proof fn law_five_protocols(l: GatewayListenersView, gw_ns: Seq<char>, certs: CertDataView)
    ensures
        l.protocol == "HTTP"@ ==> l.converted(gw_ns, certs) is Some && l.converted(
            gw_ns,
            certs,
        )->0.protocol == Protocol::HTTP,
        l.protocol == "HTTPS"@ ==> l.converted(gw_ns, certs) is Some && l.converted(
            gw_ns,
            certs,
        )->0.protocol == Protocol::HTTPS,
        l.protocol == "TLS"@ ==> l.converted(gw_ns, certs) is Some && l.converted(
            gw_ns,
            certs,
        )->0.protocol == Protocol::TLS,
        l.protocol == "TCP"@ ==> l.converted(gw_ns, certs) is Some && l.converted(
            gw_ns,
            certs,
        )->0.protocol == Protocol::TCP,
        l.protocol == "UDP"@ ==> l.converted(gw_ns, certs) is Some && l.converted(
            gw_ns,
            certs,
        )->0.protocol == Protocol::UDP,
        l.converted(gw_ns, certs) is Some ==> l.protocol == "HTTP"@ || l.protocol == "HTTPS"@
            || l.protocol == "TLS"@ || l.protocol == "TCP"@ || l.protocol == "UDP"@,
        protocol_named(l.protocol) is Some <==> l.converted(gw_ns, certs) is Some,
{
    reveal_strlit("HTTP");
    reveal_strlit("HTTPS");
    reveal_strlit("TLS");
    reveal_strlit("TCP");
    reveal_strlit("UDP");
    assert("HTTP"@.len() == 4 && "HTTPS"@.len() == 5);
    assert("TLS"@[1] == 'L' && "TCP"@[1] == 'C' && "UDP"@[1] == 'D');
    assert("TLS"@.len() == 3 && "TCP"@.len() == 3 && "UDP"@.len() == 3);
}

/// A listener keeps its name, port and host name; it terminates TLS unless it
/// is told to pass it through; each of its certificates stays in place with
/// the contents of the Secret that it names, in the Gateway's namespace where
/// it leaves that open, and without contents where the Secret is not known.
pub proof fn law_listeners_are_kept(
    l: GatewayListenersView,
    gw_ns: Seq<char>,
    certs: CertDataView,
)
    requires
        l.converted(gw_ns, certs) is Some,
    ensures
        ({
            let c = l.converted(gw_ns, certs)->0;
            &&& c.name == l.name
            &&& 0 <= l.port <= u16::MAX ==> c.port == l.port
            &&& c.hostname == l.hostname
            &&& c.target_port is None && c.address is None && c.interface is None
            &&& c.tls is Some <==> l.tls is Some
            &&& l.tls matches Some(t) ==> {
                &&& c.tls->0.mode == TlsMode::Passthrough <==> t.mode == Some(
                    GatewayListenersTlsMode::Passthrough,
                )
                &&& t.certificate_refs is None ==> c.tls->0.certificate_refs.len() == 0
                &&& t.certificate_refs matches Some(refs) ==> {
                    &&& c.tls->0.certificate_refs.len() == refs.len()
                    &&& forall|i: int|
                        0 <= i < refs.len() ==> {
                            let key = (
                                refs[i].name,
                                if refs[i].namespace is Some {
                                    refs[i].namespace->0
                                } else {
                                    gw_ns
                                },
                            );
                            let x = #[trigger] c.tls->0.certificate_refs[i];
                            &&& x.name == refs[i].name
                            &&& x.hostname == l.hostname
                            &&& certs.dom().contains(key) ==> x.cert_pem == Some(certs[key].0)
                                && x.key_pem == Some(certs[key].1)
                            &&& !certs.dom().contains(key) ==> x.cert_pem is None && x.key_pem is None
                        }
                }
            }
        }),
{
}

/// A Gateway keeps its name, its requested addresses and its listeners in
/// order; one listener more adds itself or nothing. It fails only where none
/// of its listeners can be served, and then for the first of them.
pub proof fn law_gateways_convert_listener_by_listener(
    gateway: GatewayView,
    listeners: Seq<GatewayListenersView>,
    l: GatewayListenersView,
    certs: CertDataView,
)
    ensures
        gateway.converted(certs) is Err <==> gateway.spec.listeners.len() > 0 && forall|i: int|
            0 <= i < gateway.spec.listeners.len() ==> protocol_named(
                (#[trigger] gateway.spec.listeners[i]).protocol,
            ) is None,
        gateway.converted(certs) matches Err(e) ==> e == ConvertErrorView::UnsupportedProtocol(
            gateway.spec.listeners[0].protocol,
        ),
        gateway.converted(certs) matches Ok(c) ==> {
            &&& gateway.metadata.name is Some ==> c.name == gateway.metadata.name->0
            &&& gateway.metadata.name is None ==> c.name == "portail-gateway"@
            &&& gateway.spec.addresses is None ==> c.addresses.len() == 0
        },
        ({
            let ns = match gateway.metadata.namespace {
                Some(n) => n,
                None => "default"@,
            };
            let of = |ls: Seq<GatewayListenersView>|
                (GatewayView {
                    spec: crate::kubernetes::resources::GatewaySpecView {
                        listeners: ls,
                        ..gateway.spec
                    },
                    ..gateway
                }).converted(certs);
            &&& of(Seq::empty()) is Ok && of(Seq::empty())->Ok_0.listeners.len() == 0
            &&& of(listeners) is Ok && of(listeners.push(l)) is Ok ==> of(
                listeners.push(l),
            )->Ok_0.listeners == of(listeners)->Ok_0.listeners + (match l.converted(ns, certs) {
                Some(c) => seq![c],
                None => Seq::empty(),
            })
        }),
{
    reveal_with_fuel(Seq::filter_map, 2);
    let ns = gateway.namespace();
    let f = |x: GatewayListenersView| x.converted(ns, certs);
    lemma_first_unsupported(gateway.spec.listeners, ns, certs);
    let more = listeners.push(l);
    assert(more.drop_last() =~= listeners);
    assert(more.last() == l);
    assert(converted_listeners(more, ns, certs) == more.filter_map(f));
    assert(converted_listeners(listeners, ns, certs) == listeners.filter_map(f));
    assert(listeners.filter_map(f) + Seq::empty() =~= listeners.filter_map(f));
    lemma_first_unsupported(Seq::empty(), ns, certs);
}

proof fn lemma_first_unsupported(
    listeners: Seq<GatewayListenersView>,
    ns: Seq<char>,
    certs: CertDataView,
)
    ensures
        first_unsupported(listeners) is None <==> forall|i: int|
            0 <= i < listeners.len() ==> protocol_named((#[trigger] listeners[i]).protocol) is Some,
        converted_listeners(listeners, ns, certs).len() == 0 <==> forall|i: int|
            0 <= i < listeners.len() ==> protocol_named((#[trigger] listeners[i]).protocol) is None,
        converted_listeners(listeners, ns, certs).len() == 0 && listeners.len() > 0
            ==> first_unsupported(listeners) == Some(listeners[0].protocol),
    decreases listeners.len(),
{
    reveal_with_fuel(Seq::filter_map, 2);
    if listeners.len() > 0 {
        let init = listeners.drop_last();
        let f = |x: GatewayListenersView| x.converted(ns, certs);
        lemma_first_unsupported(init, ns, certs);
        assert(converted_listeners(listeners, ns, certs) == listeners.filter_map(f));
        assert(converted_listeners(init, ns, certs) == init.filter_map(f));
        assert(forall|i: int| 0 <= i < init.len() ==> #[trigger] init[i] == listeners[i]);
        assert(forall|i: int| 0 <= i < init.len() ==> #[trigger] listeners[i] == init[i]);
        assert(listeners[listeners.len() - 1] == listeners.last());
    }
}

/// The requested addresses that have a value are kept, in order.
pub proof fn law_addresses_are_kept(
    gateway: GatewayView,
    addresses: Seq<GatewayAddressesView>,
    a: GatewayAddressesView,
)
    ensures
        ({
            let of = |list: Seq<GatewayAddressesView>|
                (GatewayView {
                    spec: crate::kubernetes::resources::GatewaySpecView {
                        addresses: Some(list),
                        ..gateway.spec
                    },
                    ..gateway
                }).address_values();
            &&& of(Seq::empty()).len() == 0
            &&& of(addresses.push(a)) == of(addresses) + (match a.value {
                Some(v) => seq![v],
                None => Seq::empty(),
            })
        }),
{
    reveal_with_fuel(Seq::filter_map, 2);
    let f = |x: GatewayAddressesView| x.value;
    let more = addresses.push(a);
    assert(more.drop_last() =~= addresses);
    assert(more.last() == a);
    assert(addresses.filter_map(f) + Seq::empty() =~= addresses.filter_map(f));
}

/// The messages of conversion errors say what is at fault.
pub proof fn law_conversion_messages(p: Seq<char>)
    ensures
        ConvertErrorView::UnsupportedProtocol(p).message() == "unsupported listener protocol: "@
            + p,
        ConvertErrorView::UnsupportedFilterType.message() == "unsupported filter type"@,
        ConvertErrorView::MissingFilterConfig(
            HTTPRouteRulesFiltersType::RequestHeaderModifier,
        ).message() == "RequestHeaderModifier"@ + " filter missing config"@,
        ConvertErrorView::MissingFilterConfig(
            HTTPRouteRulesFiltersType::ResponseHeaderModifier,
        ).message() == "ResponseHeaderModifier"@ + " filter missing config"@,
        ConvertErrorView::MissingFilterConfig(HTTPRouteRulesFiltersType::RequestMirror).message()
            == "RequestMirror"@ + " filter missing config"@,
        ConvertErrorView::MissingFilterConfig(HTTPRouteRulesFiltersType::RequestRedirect).message()
            == "RequestRedirect"@ + " filter missing config"@,
        ConvertErrorView::MissingFilterConfig(HTTPRouteRulesFiltersType::UrlRewrite).message()
            == "URLRewrite"@ + " filter missing config"@,
{
}

} // verus!
