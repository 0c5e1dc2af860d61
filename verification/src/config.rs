//! The data plane configuration.
use crate::dup::Dup;
use crate::table::Table;
use vstd::prelude::*;

verus! {

/// The protocol of a listener.
#[derive(Clone, Copy, Debug, PartialEq, Eq, Structural)]
pub enum Protocol {
    HTTP,
    HTTPS,
    TLS,
    TCP,
    UDP,
}

impl DeepView for Protocol {
    type V = Protocol;

    open spec fn deep_view(&self) -> Protocol {
        *self
    }
}

impl Dup for Protocol {
    fn dup(&self) -> (r: Self) {
        *self
    }
}

/// How a listener treats TLS.
#[derive(Clone, Copy, Debug, PartialEq, Eq, Structural)]
pub enum TlsMode {
    Terminate,
    Passthrough,
}

impl DeepView for TlsMode {
    type V = TlsMode;

    open spec fn deep_view(&self) -> TlsMode {
        *self
    }
}

impl Dup for TlsMode {
    fn dup(&self) -> (r: Self) {
        *self
    }
}

/// A certificate with its key, as far as they are known.
#[derive(Clone, Debug, Default, PartialEq, Eq)]
pub struct CertificateRef {
    pub name: String,
    /// The host name that the certificate serves.
    pub hostname: Option<String>,
    pub cert_pem: Option<Vec<u8>>,
    pub key_pem: Option<Vec<u8>>,
}

/// What a [`CertificateRef`] denotes.
#[verifier::ext_equal]
pub struct CertificateRefView {
    pub name: Seq<char>,
    pub hostname: Option<Seq<char>>,
    pub cert_pem: Option<Seq<u8>>,
    pub key_pem: Option<Seq<u8>>,
}

impl DeepView for CertificateRef {
    type V = CertificateRefView;

    open spec fn deep_view(&self) -> CertificateRefView {
        CertificateRefView {
            name: self.name.deep_view(),
            hostname: self.hostname.deep_view(),
            cert_pem: self.cert_pem.deep_view(),
            key_pem: self.key_pem.deep_view(),
        }
    }
}

impl Dup for CertificateRef {
    fn dup(&self) -> (r: Self) {
        CertificateRef {
            name: self.name.dup(),
            hostname: self.hostname.dup(),
            cert_pem: self.cert_pem.dup(),
            key_pem: self.key_pem.dup(),
        }
    }
}

/// The TLS section of a listener.
#[derive(Clone, Debug, PartialEq, Eq)]
pub struct TlsConfig {
    pub mode: TlsMode,
    pub certificate_refs: Vec<CertificateRef>,
}

/// What a [`TlsConfig`] denotes.
#[verifier::ext_equal]
pub struct TlsConfigView {
    pub mode: TlsMode,
    pub certificate_refs: Seq<CertificateRefView>,
}

impl DeepView for TlsConfig {
    type V = TlsConfigView;

    open spec fn deep_view(&self) -> TlsConfigView {
        TlsConfigView {
            mode: self.mode.deep_view(),
            certificate_refs: self.certificate_refs.deep_view(),
        }
    }
}

impl Dup for TlsConfig {
    fn dup(&self) -> (r: Self) {
        TlsConfig {
            mode: self.mode.dup(),
            certificate_refs: self.certificate_refs.dup(),
        }
    }
}

/// A listener.
#[derive(Clone, Debug, PartialEq, Eq)]
pub struct ListenerConfig {
    pub name: String,
    pub protocol: Protocol,
    /// The published port.
    pub port: u16,
    /// The port to bind in place of the published one.
    pub target_port: Option<u16>,
    pub hostname: Option<String>,
    pub address: Option<String>,
    pub interface: Option<String>,
    pub tls: Option<TlsConfig>,
}

/// What a [`ListenerConfig`] denotes.
#[verifier::ext_equal]
pub struct ListenerConfigView {
    pub name: Seq<char>,
    pub protocol: Protocol,
    pub port: u16,
    pub target_port: Option<u16>,
    pub hostname: Option<Seq<char>>,
    pub address: Option<Seq<char>>,
    pub interface: Option<Seq<char>>,
    pub tls: Option<TlsConfigView>,
}

impl DeepView for ListenerConfig {
    type V = ListenerConfigView;

    open spec fn deep_view(&self) -> ListenerConfigView {
        ListenerConfigView {
            name: self.name.deep_view(),
            protocol: self.protocol.deep_view(),
            port: self.port.deep_view(),
            target_port: self.target_port.deep_view(),
            hostname: self.hostname.deep_view(),
            address: self.address.deep_view(),
            interface: self.interface.deep_view(),
            tls: self.tls.deep_view(),
        }
    }
}

impl Dup for ListenerConfig {
    fn dup(&self) -> (r: Self) {
        ListenerConfig {
            name: self.name.dup(),
            protocol: self.protocol.dup(),
            port: self.port.dup(),
            target_port: self.target_port.dup(),
            hostname: self.hostname.dup(),
            address: self.address.dup(),
            interface: self.interface.dup(),
            tls: self.tls.dup(),
        }
    }
}

/// A Gateway with its listeners.
#[derive(Clone, Debug, Default, PartialEq, Eq)]
pub struct GatewayConfig {
    pub name: String,
    pub listeners: Vec<ListenerConfig>,
    pub addresses: Vec<String>,
}

/// What a [`GatewayConfig`] denotes.
#[verifier::ext_equal]
pub struct GatewayConfigView {
    pub name: Seq<char>,
    pub listeners: Seq<ListenerConfigView>,
    pub addresses: Seq<Seq<char>>,
}

impl DeepView for GatewayConfig {
    type V = GatewayConfigView;

    open spec fn deep_view(&self) -> GatewayConfigView {
        GatewayConfigView {
            name: self.name.deep_view(),
            listeners: self.listeners.deep_view(),
            addresses: self.addresses.deep_view(),
        }
    }
}

impl Dup for GatewayConfig {
    fn dup(&self) -> (r: Self) {
        GatewayConfig {
            name: self.name.dup(),
            listeners: self.listeners.dup(),
            addresses: self.addresses.dup(),
        }
    }
}

/// The listeners that a route attaches to.
#[derive(Clone, Debug, Default, PartialEq, Eq)]
pub struct ParentRef {
    pub name: String,
    pub section_name: Option<String>,
    pub port: Option<i32>,
}

/// What a [`ParentRef`] denotes.
#[verifier::ext_equal]
pub struct ParentRefView {
    pub name: Seq<char>,
    pub section_name: Option<Seq<char>>,
    pub port: Option<i32>,
}

impl DeepView for ParentRef {
    type V = ParentRefView;

    open spec fn deep_view(&self) -> ParentRefView {
        ParentRefView {
            name: self.name.deep_view(),
            section_name: self.section_name.deep_view(),
            port: self.port.deep_view(),
        }
    }
}

impl Dup for ParentRef {
    fn dup(&self) -> (r: Self) {
        ParentRef {
            name: self.name.dup(),
            section_name: self.section_name.dup(),
            port: self.port.dup(),
        }
    }
}

/// How a path is matched.
#[derive(Clone, Copy, Debug, PartialEq, Eq, Structural)]
pub enum HttpPathMatchType {
    Exact,
    PathPrefix,
    RegularExpression,
}

impl DeepView for HttpPathMatchType {
    type V = HttpPathMatchType;

    open spec fn deep_view(&self) -> HttpPathMatchType {
        *self
    }
}

impl Dup for HttpPathMatchType {
    fn dup(&self) -> (r: Self) {
        *self
    }
}

/// How a text is matched.
#[derive(Clone, Copy, Debug, PartialEq, Eq, Structural)]
pub enum StringMatchType {
    Exact,
    RegularExpression,
}

impl DeepView for StringMatchType {
    type V = StringMatchType;

    open spec fn deep_view(&self) -> StringMatchType {
        *self
    }
}

impl Dup for StringMatchType {
    fn dup(&self) -> (r: Self) {
        *self
    }
}

/// A path to match.
#[derive(Clone, Debug, PartialEq, Eq)]
pub struct HttpPathMatch {
    pub match_type: HttpPathMatchType,
    pub value: String,
}

/// What a [`HttpPathMatch`] denotes.
#[verifier::ext_equal]
pub struct HttpPathMatchView {
    pub match_type: HttpPathMatchType,
    pub value: Seq<char>,
}

impl DeepView for HttpPathMatch {
    type V = HttpPathMatchView;

    open spec fn deep_view(&self) -> HttpPathMatchView {
        HttpPathMatchView {
            match_type: self.match_type.deep_view(),
            value: self.value.deep_view(),
        }
    }
}

impl Dup for HttpPathMatch {
    fn dup(&self) -> (r: Self) {
        HttpPathMatch {
            match_type: self.match_type.dup(),
            value: self.value.dup(),
        }
    }
}

/// A header to match.
#[derive(Clone, Debug, PartialEq, Eq)]
pub struct HttpHeaderMatch {
    pub name: String,
    pub value: String,
    pub match_type: StringMatchType,
}

/// What a [`HttpHeaderMatch`] denotes.
#[verifier::ext_equal]
pub struct HttpHeaderMatchView {
    pub name: Seq<char>,
    pub value: Seq<char>,
    pub match_type: StringMatchType,
}

impl DeepView for HttpHeaderMatch {
    type V = HttpHeaderMatchView;

    open spec fn deep_view(&self) -> HttpHeaderMatchView {
        HttpHeaderMatchView {
            name: self.name.deep_view(),
            value: self.value.deep_view(),
            match_type: self.match_type.deep_view(),
        }
    }
}

impl Dup for HttpHeaderMatch {
    fn dup(&self) -> (r: Self) {
        HttpHeaderMatch {
            name: self.name.dup(),
            value: self.value.dup(),
            match_type: self.match_type.dup(),
        }
    }
}

/// A query parameter to match.
#[derive(Clone, Debug, PartialEq, Eq)]
pub struct HttpQueryParamMatch {
    pub name: String,
    pub value: String,
    pub match_type: StringMatchType,
}

/// What a [`HttpQueryParamMatch`] denotes.
#[verifier::ext_equal]
pub struct HttpQueryParamMatchView {
    pub name: Seq<char>,
    pub value: Seq<char>,
    pub match_type: StringMatchType,
}

impl DeepView for HttpQueryParamMatch {
    type V = HttpQueryParamMatchView;

    open spec fn deep_view(&self) -> HttpQueryParamMatchView {
        HttpQueryParamMatchView {
            name: self.name.deep_view(),
            value: self.value.deep_view(),
            match_type: self.match_type.deep_view(),
        }
    }
}

impl Dup for HttpQueryParamMatch {
    fn dup(&self) -> (r: Self) {
        HttpQueryParamMatch {
            name: self.name.dup(),
            value: self.value.dup(),
            match_type: self.match_type.dup(),
        }
    }
}

/// A condition on requests.
#[derive(Clone, Debug, Default, PartialEq, Eq)]
pub struct HttpRouteMatch {
    pub method: Option<String>,
    pub path: Option<HttpPathMatch>,
    pub headers: Vec<HttpHeaderMatch>,
    pub query_params: Vec<HttpQueryParamMatch>,
}

/// What a [`HttpRouteMatch`] denotes.
#[verifier::ext_equal]
pub struct HttpRouteMatchView {
    pub method: Option<Seq<char>>,
    pub path: Option<HttpPathMatchView>,
    pub headers: Seq<HttpHeaderMatchView>,
    pub query_params: Seq<HttpQueryParamMatchView>,
}

impl DeepView for HttpRouteMatch {
    type V = HttpRouteMatchView;

    open spec fn deep_view(&self) -> HttpRouteMatchView {
        HttpRouteMatchView {
            method: self.method.deep_view(),
            path: self.path.deep_view(),
            headers: self.headers.deep_view(),
            query_params: self.query_params.deep_view(),
        }
    }
}

impl Dup for HttpRouteMatch {
    fn dup(&self) -> (r: Self) {
        HttpRouteMatch {
            method: self.method.dup(),
            path: self.path.dup(),
            headers: self.headers.dup(),
            query_params: self.query_params.dup(),
        }
    }
}

/// A header with its value.
#[derive(Clone, Debug, Default, PartialEq, Eq)]
pub struct HttpHeader {
    pub name: String,
    pub value: String,
}

/// What a [`HttpHeader`] denotes.
#[verifier::ext_equal]
pub struct HttpHeaderView {
    pub name: Seq<char>,
    pub value: Seq<char>,
}

impl DeepView for HttpHeader {
    type V = HttpHeaderView;

    open spec fn deep_view(&self) -> HttpHeaderView {
        HttpHeaderView {
            name: self.name.deep_view(),
            value: self.value.deep_view(),
        }
    }
}

impl Dup for HttpHeader {
    fn dup(&self) -> (r: Self) {
        HttpHeader {
            name: self.name.dup(),
            value: self.value.dup(),
        }
    }
}

/// Changes to the headers of a message.
#[derive(Clone, Debug, Default, PartialEq, Eq)]
pub struct HeaderModifierConfig {
    pub add: Vec<HttpHeader>,
    pub set: Vec<HttpHeader>,
    pub remove: Vec<String>,
}

/// What a [`HeaderModifierConfig`] denotes.
#[verifier::ext_equal]
pub struct HeaderModifierConfigView {
    pub add: Seq<HttpHeaderView>,
    pub set: Seq<HttpHeaderView>,
    pub remove: Seq<Seq<char>>,
}

impl DeepView for HeaderModifierConfig {
    type V = HeaderModifierConfigView;

    open spec fn deep_view(&self) -> HeaderModifierConfigView {
        HeaderModifierConfigView {
            add: self.add.deep_view(),
            set: self.set.deep_view(),
            remove: self.remove.deep_view(),
        }
    }
}

impl Dup for HeaderModifierConfig {
    fn dup(&self) -> (r: Self) {
        HeaderModifierConfig {
            add: self.add.dup(),
            set: self.set.dup(),
            remove: self.remove.dup(),
        }
    }
}

/// A filter of a single backend.
#[derive(Clone, Debug, PartialEq, Eq)]
pub enum BackendFilter {
    RequestHeaderModifier { config: HeaderModifierConfig },
    ResponseHeaderModifier { config: HeaderModifierConfig },
}

/// What a [`BackendFilter`] denotes.
#[verifier::ext_equal]
pub enum BackendFilterView {
    RequestHeaderModifier { config: HeaderModifierConfigView },
    ResponseHeaderModifier { config: HeaderModifierConfigView },
}

impl DeepView for BackendFilter {
    type V = BackendFilterView;

    open spec fn deep_view(&self) -> BackendFilterView {
        match self {
            BackendFilter::RequestHeaderModifier { config } => {
                BackendFilterView::RequestHeaderModifier { config: config.deep_view() }
            },
            BackendFilter::ResponseHeaderModifier { config } => {
                BackendFilterView::ResponseHeaderModifier { config: config.deep_view() }
            },
        }
    }
}

impl Dup for BackendFilter {
    fn dup(&self) -> (r: Self) {
        match self {
            BackendFilter::RequestHeaderModifier { config } => BackendFilter::RequestHeaderModifier { config: config.dup() },
            BackendFilter::ResponseHeaderModifier { config } => BackendFilter::ResponseHeaderModifier { config: config.dup() },
        }
    }
}

/// A backend that traffic goes to.
#[derive(Clone, Debug, Default, PartialEq, Eq)]
pub struct BackendRef {
    /// `{service}.{namespace}.svc`.
    pub name: String,
    pub port: u16,
    pub weight: u32,
    pub group: String,
    pub kind: String,
    pub filters: Vec<BackendFilter>,
}

/// What a [`BackendRef`] denotes.
#[verifier::ext_equal]
pub struct BackendRefView {
    pub name: Seq<char>,
    pub port: u16,
    pub weight: u32,
    pub group: Seq<char>,
    pub kind: Seq<char>,
    pub filters: Seq<BackendFilterView>,
}

impl DeepView for BackendRef {
    type V = BackendRefView;

    open spec fn deep_view(&self) -> BackendRefView {
        BackendRefView {
            name: self.name.deep_view(),
            port: self.port.deep_view(),
            weight: self.weight.deep_view(),
            group: self.group.deep_view(),
            kind: self.kind.deep_view(),
            filters: self.filters.deep_view(),
        }
    }
}

impl Dup for BackendRef {
    fn dup(&self) -> (r: Self) {
        BackendRef {
            name: self.name.dup(),
            port: self.port.dup(),
            weight: self.weight.dup(),
            group: self.group.dup(),
            kind: self.kind.dup(),
            filters: self.filters.dup(),
        }
    }
}

/// A path rewrite.
#[derive(Clone, Debug, PartialEq, Eq)]
pub enum HttpURLRewritePath {
    ReplaceFullPath { value: String },
    ReplacePrefixMatch { value: String },
}

/// What a [`HttpURLRewritePath`] denotes.
#[verifier::ext_equal]
pub enum HttpURLRewritePathView {
    ReplaceFullPath { value: Seq<char> },
    ReplacePrefixMatch { value: Seq<char> },
}

impl DeepView for HttpURLRewritePath {
    type V = HttpURLRewritePathView;

    open spec fn deep_view(&self) -> HttpURLRewritePathView {
        match self {
            HttpURLRewritePath::ReplaceFullPath { value } => HttpURLRewritePathView::ReplaceFullPath { value: value.deep_view() },
            HttpURLRewritePath::ReplacePrefixMatch { value } => HttpURLRewritePathView::ReplacePrefixMatch { value: value.deep_view() },
        }
    }
}

impl Dup for HttpURLRewritePath {
    fn dup(&self) -> (r: Self) {
        match self {
            HttpURLRewritePath::ReplaceFullPath { value } => HttpURLRewritePath::ReplaceFullPath { value: value.dup() },
            HttpURLRewritePath::ReplacePrefixMatch { value } => HttpURLRewritePath::ReplacePrefixMatch { value: value.dup() },
        }
    }
}

/// A redirect.
#[derive(Clone, Debug, Default, PartialEq, Eq)]
pub struct RequestRedirectConfig {
    pub scheme: Option<String>,
    pub hostname: Option<String>,
    pub port: Option<u16>,
    pub path: Option<HttpURLRewritePath>,
    pub status_code: u16,
}

/// What a [`RequestRedirectConfig`] denotes.
#[verifier::ext_equal]
pub struct RequestRedirectConfigView {
    pub scheme: Option<Seq<char>>,
    pub hostname: Option<Seq<char>>,
    pub port: Option<u16>,
    pub path: Option<HttpURLRewritePathView>,
    pub status_code: u16,
}

impl DeepView for RequestRedirectConfig {
    type V = RequestRedirectConfigView;

    open spec fn deep_view(&self) -> RequestRedirectConfigView {
        RequestRedirectConfigView {
            scheme: self.scheme.deep_view(),
            hostname: self.hostname.deep_view(),
            port: self.port.deep_view(),
            path: self.path.deep_view(),
            status_code: self.status_code.deep_view(),
        }
    }
}

impl Dup for RequestRedirectConfig {
    fn dup(&self) -> (r: Self) {
        RequestRedirectConfig {
            scheme: self.scheme.dup(),
            hostname: self.hostname.dup(),
            port: self.port.dup(),
            path: self.path.dup(),
            status_code: self.status_code.dup(),
        }
    }
}

/// A rewrite of the request target.
#[derive(Clone, Debug, Default, PartialEq, Eq)]
pub struct URLRewriteConfig {
    pub hostname: Option<String>,
    pub path: Option<HttpURLRewritePath>,
}

/// What a [`URLRewriteConfig`] denotes.
#[verifier::ext_equal]
pub struct URLRewriteConfigView {
    pub hostname: Option<Seq<char>>,
    pub path: Option<HttpURLRewritePathView>,
}

impl DeepView for URLRewriteConfig {
    type V = URLRewriteConfigView;

    open spec fn deep_view(&self) -> URLRewriteConfigView {
        URLRewriteConfigView {
            hostname: self.hostname.deep_view(),
            path: self.path.deep_view(),
        }
    }
}

impl Dup for URLRewriteConfig {
    fn dup(&self) -> (r: Self) {
        URLRewriteConfig {
            hostname: self.hostname.dup(),
            path: self.path.dup(),
        }
    }
}

/// A request mirror.
#[derive(Clone, Debug, Default, PartialEq, Eq)]
pub struct RequestMirrorConfig {
    pub backend_ref: BackendRef,
}

/// What a [`RequestMirrorConfig`] denotes.
#[verifier::ext_equal]
pub struct RequestMirrorConfigView {
    pub backend_ref: BackendRefView,
}

impl DeepView for RequestMirrorConfig {
    type V = RequestMirrorConfigView;

    open spec fn deep_view(&self) -> RequestMirrorConfigView {
        RequestMirrorConfigView {
            backend_ref: self.backend_ref.deep_view(),
        }
    }
}

impl Dup for RequestMirrorConfig {
    fn dup(&self) -> (r: Self) {
        RequestMirrorConfig {
            backend_ref: self.backend_ref.dup(),
        }
    }
}

/// A filter of a rule.
#[derive(Clone, Debug, PartialEq, Eq)]
pub enum HttpRouteFilter {
    RequestHeaderModifier { config: HeaderModifierConfig },
    ResponseHeaderModifier { config: HeaderModifierConfig },
    RequestRedirect { config: RequestRedirectConfig },
    URLRewrite { config: URLRewriteConfig },
    RequestMirror { config: RequestMirrorConfig },
}

/// What a [`HttpRouteFilter`] denotes.
#[verifier::ext_equal]
pub enum HttpRouteFilterView {
    RequestHeaderModifier { config: HeaderModifierConfigView },
    ResponseHeaderModifier { config: HeaderModifierConfigView },
    RequestRedirect { config: RequestRedirectConfigView },
    URLRewrite { config: URLRewriteConfigView },
    RequestMirror { config: RequestMirrorConfigView },
}

impl DeepView for HttpRouteFilter {
    type V = HttpRouteFilterView;

    open spec fn deep_view(&self) -> HttpRouteFilterView {
        match self {
            HttpRouteFilter::RequestHeaderModifier { config } => HttpRouteFilterView::RequestHeaderModifier { config: config.deep_view() },
            HttpRouteFilter::ResponseHeaderModifier { config } => HttpRouteFilterView::ResponseHeaderModifier { config: config.deep_view() },
            HttpRouteFilter::RequestRedirect { config } => HttpRouteFilterView::RequestRedirect { config: config.deep_view() },
            HttpRouteFilter::URLRewrite { config } => HttpRouteFilterView::URLRewrite { config: config.deep_view() },
            HttpRouteFilter::RequestMirror { config } => HttpRouteFilterView::RequestMirror { config: config.deep_view() },
        }
    }
}

impl Dup for HttpRouteFilter {
    fn dup(&self) -> (r: Self) {
        match self {
            HttpRouteFilter::RequestHeaderModifier { config } => HttpRouteFilter::RequestHeaderModifier { config: config.dup() },
            HttpRouteFilter::ResponseHeaderModifier { config } => HttpRouteFilter::ResponseHeaderModifier { config: config.dup() },
            HttpRouteFilter::RequestRedirect { config } => HttpRouteFilter::RequestRedirect { config: config.dup() },
            HttpRouteFilter::URLRewrite { config } => HttpRouteFilter::URLRewrite { config: config.dup() },
            HttpRouteFilter::RequestMirror { config } => HttpRouteFilter::RequestMirror { config: config.dup() },
        }
    }
}

/// The time limits of a rule, in milliseconds.
#[derive(Clone, Debug, Default, PartialEq, Eq)]
pub struct HttpRouteTimeouts {
    pub request: Option<u64>,
    pub backend_request: Option<u64>,
}

/// What a [`HttpRouteTimeouts`] denotes.
#[verifier::ext_equal]
pub struct HttpRouteTimeoutsView {
    pub request: Option<u64>,
    pub backend_request: Option<u64>,
}

impl DeepView for HttpRouteTimeouts {
    type V = HttpRouteTimeoutsView;

    open spec fn deep_view(&self) -> HttpRouteTimeoutsView {
        HttpRouteTimeoutsView {
            request: self.request.deep_view(),
            backend_request: self.backend_request.deep_view(),
        }
    }
}

impl Dup for HttpRouteTimeouts {
    fn dup(&self) -> (r: Self) {
        HttpRouteTimeouts {
            request: self.request.dup(),
            backend_request: self.backend_request.dup(),
        }
    }
}

/// A rule of an HTTP route.
#[derive(Clone, Debug, Default, PartialEq, Eq)]
pub struct HttpRouteRule {
    pub matches: Vec<HttpRouteMatch>,
    pub filters: Vec<HttpRouteFilter>,
    pub backend_refs: Vec<BackendRef>,
    pub timeouts: Option<HttpRouteTimeouts>,
}

/// What a [`HttpRouteRule`] denotes.
#[verifier::ext_equal]
pub struct HttpRouteRuleView {
    pub matches: Seq<HttpRouteMatchView>,
    pub filters: Seq<HttpRouteFilterView>,
    pub backend_refs: Seq<BackendRefView>,
    pub timeouts: Option<HttpRouteTimeoutsView>,
}

impl DeepView for HttpRouteRule {
    type V = HttpRouteRuleView;

    open spec fn deep_view(&self) -> HttpRouteRuleView {
        HttpRouteRuleView {
            matches: self.matches.deep_view(),
            filters: self.filters.deep_view(),
            backend_refs: self.backend_refs.deep_view(),
            timeouts: self.timeouts.deep_view(),
        }
    }
}

impl Dup for HttpRouteRule {
    fn dup(&self) -> (r: Self) {
        HttpRouteRule {
            matches: self.matches.dup(),
            filters: self.filters.dup(),
            backend_refs: self.backend_refs.dup(),
            timeouts: self.timeouts.dup(),
        }
    }
}

/// An HTTP route.
#[derive(Clone, Debug, Default, PartialEq, Eq)]
pub struct HttpRouteConfig {
    pub parent_refs: Vec<ParentRef>,
    pub hostnames: Vec<String>,
    pub rules: Vec<HttpRouteRule>,
}

/// What a [`HttpRouteConfig`] denotes.
#[verifier::ext_equal]
pub struct HttpRouteConfigView {
    pub parent_refs: Seq<ParentRefView>,
    pub hostnames: Seq<Seq<char>>,
    pub rules: Seq<HttpRouteRuleView>,
}

impl DeepView for HttpRouteConfig {
    type V = HttpRouteConfigView;

    open spec fn deep_view(&self) -> HttpRouteConfigView {
        HttpRouteConfigView {
            parent_refs: self.parent_refs.deep_view(),
            hostnames: self.hostnames.deep_view(),
            rules: self.rules.deep_view(),
        }
    }
}

impl Dup for HttpRouteConfig {
    fn dup(&self) -> (r: Self) {
        HttpRouteConfig {
            parent_refs: self.parent_refs.dup(),
            hostnames: self.hostnames.dup(),
            rules: self.rules.dup(),
        }
    }
}

/// A rule of a TCP route.
#[derive(Clone, Debug, Default, PartialEq, Eq)]
pub struct TcpRouteRule {
    pub backend_refs: Vec<BackendRef>,
}

/// What a [`TcpRouteRule`] denotes.
#[verifier::ext_equal]
pub struct TcpRouteRuleView {
    pub backend_refs: Seq<BackendRefView>,
}

impl DeepView for TcpRouteRule {
    type V = TcpRouteRuleView;

    open spec fn deep_view(&self) -> TcpRouteRuleView {
        TcpRouteRuleView {
            backend_refs: self.backend_refs.deep_view(),
        }
    }
}

impl Dup for TcpRouteRule {
    fn dup(&self) -> (r: Self) {
        TcpRouteRule {
            backend_refs: self.backend_refs.dup(),
        }
    }
}

/// A TCP route.
#[derive(Clone, Debug, Default, PartialEq, Eq)]
pub struct TcpRouteConfig {
    pub parent_refs: Vec<ParentRef>,
    pub rules: Vec<TcpRouteRule>,
}

/// What a [`TcpRouteConfig`] denotes.
#[verifier::ext_equal]
pub struct TcpRouteConfigView {
    pub parent_refs: Seq<ParentRefView>,
    pub rules: Seq<TcpRouteRuleView>,
}

impl DeepView for TcpRouteConfig {
    type V = TcpRouteConfigView;

    open spec fn deep_view(&self) -> TcpRouteConfigView {
        TcpRouteConfigView {
            parent_refs: self.parent_refs.deep_view(),
            rules: self.rules.deep_view(),
        }
    }
}

impl Dup for TcpRouteConfig {
    fn dup(&self) -> (r: Self) {
        TcpRouteConfig {
            parent_refs: self.parent_refs.dup(),
            rules: self.rules.dup(),
        }
    }
}

/// A rule of a UDP route.
#[derive(Clone, Debug, Default, PartialEq, Eq)]
pub struct UdpRouteRule {
    pub backend_refs: Vec<BackendRef>,
}

/// What a [`UdpRouteRule`] denotes.
#[verifier::ext_equal]
pub struct UdpRouteRuleView {
    pub backend_refs: Seq<BackendRefView>,
}

impl DeepView for UdpRouteRule {
    type V = UdpRouteRuleView;

    open spec fn deep_view(&self) -> UdpRouteRuleView {
        UdpRouteRuleView {
            backend_refs: self.backend_refs.deep_view(),
        }
    }
}

impl Dup for UdpRouteRule {
    fn dup(&self) -> (r: Self) {
        UdpRouteRule {
            backend_refs: self.backend_refs.dup(),
        }
    }
}

/// A UDP route.
#[derive(Clone, Debug, Default, PartialEq, Eq)]
pub struct UdpRouteConfig {
    pub parent_refs: Vec<ParentRef>,
    pub rules: Vec<UdpRouteRule>,
}

/// What a [`UdpRouteConfig`] denotes.
#[verifier::ext_equal]
pub struct UdpRouteConfigView {
    pub parent_refs: Seq<ParentRefView>,
    pub rules: Seq<UdpRouteRuleView>,
}

impl DeepView for UdpRouteConfig {
    type V = UdpRouteConfigView;

    open spec fn deep_view(&self) -> UdpRouteConfigView {
        UdpRouteConfigView {
            parent_refs: self.parent_refs.deep_view(),
            rules: self.rules.deep_view(),
        }
    }
}

impl Dup for UdpRouteConfig {
    fn dup(&self) -> (r: Self) {
        UdpRouteConfig {
            parent_refs: self.parent_refs.dup(),
            rules: self.rules.dup(),
        }
    }
}

/// A rule of a TLS route.
#[derive(Clone, Debug, Default, PartialEq, Eq)]
pub struct TlsRouteRule {
    pub backend_refs: Vec<BackendRef>,
}

/// What a [`TlsRouteRule`] denotes.
#[verifier::ext_equal]
pub struct TlsRouteRuleView {
    pub backend_refs: Seq<BackendRefView>,
}

impl DeepView for TlsRouteRule {
    type V = TlsRouteRuleView;

    open spec fn deep_view(&self) -> TlsRouteRuleView {
        TlsRouteRuleView {
            backend_refs: self.backend_refs.deep_view(),
        }
    }
}

impl Dup for TlsRouteRule {
    fn dup(&self) -> (r: Self) {
        TlsRouteRule {
            backend_refs: self.backend_refs.dup(),
        }
    }
}

/// A TLS route.
#[derive(Clone, Debug, Default, PartialEq, Eq)]
pub struct TlsRouteConfig {
    pub parent_refs: Vec<ParentRef>,
    pub hostnames: Vec<String>,
    pub rules: Vec<TlsRouteRule>,
}

/// What a [`TlsRouteConfig`] denotes.
#[verifier::ext_equal]
pub struct TlsRouteConfigView {
    pub parent_refs: Seq<ParentRefView>,
    pub hostnames: Seq<Seq<char>>,
    pub rules: Seq<TlsRouteRuleView>,
}

impl DeepView for TlsRouteConfig {
    type V = TlsRouteConfigView;

    open spec fn deep_view(&self) -> TlsRouteConfigView {
        TlsRouteConfigView {
            parent_refs: self.parent_refs.deep_view(),
            hostnames: self.hostnames.deep_view(),
            rules: self.rules.deep_view(),
        }
    }
}

impl Dup for TlsRouteConfig {
    fn dup(&self) -> (r: Self) {
        TlsRouteConfig {
            parent_refs: self.parent_refs.dup(),
            hostnames: self.hostnames.dup(),
            rules: self.rules.dup(),
        }
    }
}

/// Everything that the data plane runs on.
#[derive(Clone, Debug, Default, PartialEq, Eq)]
pub struct PortailConfig {
    pub gateway: GatewayConfig,
    pub http_routes: Vec<HttpRouteConfig>,
    pub tcp_routes: Vec<TcpRouteConfig>,
    pub tls_routes: Vec<TlsRouteConfig>,
    pub udp_routes: Vec<UdpRouteConfig>,
    /// Where a (backend, port) is to be reached instead.
    pub endpoint_overrides: Table<(String, u16), Vec<(String, u16)>>,
    /// The application protocol of a (backend, port).
    pub app_protocol_overrides: Table<(String, u16), String>,
    /// The port to connect to for a (backend, port) without a virtual address.
    pub headless_target_ports: Table<(String, u16), u16>,
}

/// What a [`PortailConfig`] denotes.
#[verifier::ext_equal]
pub struct PortailConfigView {
    pub gateway: GatewayConfigView,
    pub http_routes: Seq<HttpRouteConfigView>,
    pub tcp_routes: Seq<TcpRouteConfigView>,
    pub tls_routes: Seq<TlsRouteConfigView>,
    pub udp_routes: Seq<UdpRouteConfigView>,
    pub endpoint_overrides: Map<(Seq<char>, u16), Seq<(Seq<char>, u16)>>,
    pub app_protocol_overrides: Map<(Seq<char>, u16), Seq<char>>,
    pub headless_target_ports: Map<(Seq<char>, u16), u16>,
}

impl DeepView for PortailConfig {
    type V = PortailConfigView;

    open spec fn deep_view(&self) -> PortailConfigView {
        PortailConfigView {
            gateway: self.gateway.deep_view(),
            http_routes: self.http_routes.deep_view(),
            tcp_routes: self.tcp_routes.deep_view(),
            tls_routes: self.tls_routes.deep_view(),
            udp_routes: self.udp_routes.deep_view(),
            endpoint_overrides: self.endpoint_overrides.deep_view(),
            app_protocol_overrides: self.app_protocol_overrides.deep_view(),
            headless_target_ports: self.headless_target_ports.deep_view(),
        }
    }
}

impl Dup for PortailConfig {
    fn dup(&self) -> (r: Self) {
        PortailConfig {
            gateway: self.gateway.dup(),
            http_routes: self.http_routes.dup(),
            tcp_routes: self.tcp_routes.dup(),
            tls_routes: self.tls_routes.dup(),
            udp_routes: self.udp_routes.dup(),
            endpoint_overrides: self.endpoint_overrides.dup(),
            app_protocol_overrides: self.app_protocol_overrides.dup(),
            headless_target_ports: self.headless_target_ports.dup(),
        }
    }
}

} // verus!
