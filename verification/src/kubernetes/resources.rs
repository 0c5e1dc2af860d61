//! The cluster objects that routing decisions read, as plain data.
use crate::table::Table;
use vstd::prelude::*;

verus! {

/// Identity and labels of an object.
#[derive(Clone, Debug, Default, PartialEq, Eq)]
pub struct ObjectMeta {
    pub name: Option<String>,
    pub namespace: Option<String>,
    pub generation: Option<i64>,
    pub labels: Option<Table<String, String>>,
}

/// What a [`ObjectMeta`] denotes.
#[verifier::ext_equal]
pub struct ObjectMetaView {
    pub name: Option<Seq<char>>,
    pub namespace: Option<Seq<char>>,
    pub generation: Option<i64>,
    pub labels: Option<Map<Seq<char>, Seq<char>>>,
}

impl DeepView for ObjectMeta {
    type V = ObjectMetaView;

    open spec fn deep_view(&self) -> ObjectMetaView {
        ObjectMetaView {
            name: self.name.deep_view(),
            namespace: self.namespace.deep_view(),
            generation: self.generation.deep_view(),
            labels: self.labels.deep_view(),
        }
    }
}

/// How a listener treats TLS.
#[derive(Clone, Copy, Debug, PartialEq, Eq, Structural)]
pub enum GatewayListenersTlsMode {
    Terminate,
    Passthrough,
}

impl DeepView for GatewayListenersTlsMode {
    type V = GatewayListenersTlsMode;

    open spec fn deep_view(&self) -> GatewayListenersTlsMode {
        *self
    }
}

/// A reference to a certificate Secret.
#[derive(Clone, Debug, Default, PartialEq, Eq)]
pub struct GatewayListenersTlsCertificateRefs {
    pub group: Option<String>,
    pub kind: Option<String>,
    pub name: String,
    pub namespace: Option<String>,
}

/// What a [`GatewayListenersTlsCertificateRefs`] denotes.
#[verifier::ext_equal]
pub struct GatewayListenersTlsCertificateRefsView {
    pub group: Option<Seq<char>>,
    pub kind: Option<Seq<char>>,
    pub name: Seq<char>,
    pub namespace: Option<Seq<char>>,
}

impl DeepView for GatewayListenersTlsCertificateRefs {
    type V = GatewayListenersTlsCertificateRefsView;

    open spec fn deep_view(&self) -> GatewayListenersTlsCertificateRefsView {
        GatewayListenersTlsCertificateRefsView {
            group: self.group.deep_view(),
            kind: self.kind.deep_view(),
            name: self.name.deep_view(),
            namespace: self.namespace.deep_view(),
        }
    }
}

/// The TLS section of a listener.
#[derive(Clone, Debug, Default, PartialEq, Eq)]
pub struct GatewayListenersTls {
    pub mode: Option<GatewayListenersTlsMode>,
    pub certificate_refs: Option<Vec<GatewayListenersTlsCertificateRefs>>,
}

/// What a [`GatewayListenersTls`] denotes.
#[verifier::ext_equal]
pub struct GatewayListenersTlsView {
    pub mode: Option<GatewayListenersTlsMode>,
    pub certificate_refs: Option<Seq<GatewayListenersTlsCertificateRefsView>>,
}

impl DeepView for GatewayListenersTls {
    type V = GatewayListenersTlsView;

    open spec fn deep_view(&self) -> GatewayListenersTlsView {
        GatewayListenersTlsView {
            mode: self.mode.deep_view(),
            certificate_refs: self.certificate_refs.deep_view(),
        }
    }
}

/// A route kind that a listener admits.
#[derive(Clone, Debug, Default, PartialEq, Eq)]
pub struct GatewayListenersAllowedRoutesKinds {
    pub group: Option<String>,
    pub kind: String,
}

/// What a [`GatewayListenersAllowedRoutesKinds`] denotes.
#[verifier::ext_equal]
pub struct GatewayListenersAllowedRoutesKindsView {
    pub group: Option<Seq<char>>,
    pub kind: Seq<char>,
}

impl DeepView for GatewayListenersAllowedRoutesKinds {
    type V = GatewayListenersAllowedRoutesKindsView;

    open spec fn deep_view(&self) -> GatewayListenersAllowedRoutesKindsView {
        GatewayListenersAllowedRoutesKindsView {
            group: self.group.deep_view(),
            kind: self.kind.deep_view(),
        }
    }
}

/// Which namespaces a listener admits routes from.
#[derive(Clone, Copy, Debug, PartialEq, Eq, Structural)]
pub enum GatewayListenersAllowedRoutesNamespacesFrom {
    All,
    Selector,
    Same,
}

impl DeepView for GatewayListenersAllowedRoutesNamespacesFrom {
    type V = GatewayListenersAllowedRoutesNamespacesFrom;

    open spec fn deep_view(&self) -> GatewayListenersAllowedRoutesNamespacesFrom {
        *self
    }
}

/// One requirement on the labels of a namespace.
#[derive(Clone, Debug, Default, PartialEq, Eq)]
pub struct LabelSelectorRequirement {
    pub key: String,
    pub operator: String,
    pub values: Option<Vec<String>>,
}

/// What a [`LabelSelectorRequirement`] denotes.
#[verifier::ext_equal]
pub struct LabelSelectorRequirementView {
    pub key: Seq<char>,
    pub operator: Seq<char>,
    pub values: Option<Seq<Seq<char>>>,
}

impl DeepView for LabelSelectorRequirement {
    type V = LabelSelectorRequirementView;

    open spec fn deep_view(&self) -> LabelSelectorRequirementView {
        LabelSelectorRequirementView {
            key: self.key.deep_view(),
            operator: self.operator.deep_view(),
            values: self.values.deep_view(),
        }
    }
}

/// A selection of namespaces by their labels.
#[derive(Clone, Debug, Default, PartialEq, Eq)]
pub struct LabelSelector {
    pub match_labels: Option<Table<String, String>>,
    pub match_expressions: Option<Vec<LabelSelectorRequirement>>,
}

/// What a [`LabelSelector`] denotes.
#[verifier::ext_equal]
pub struct LabelSelectorView {
    pub match_labels: Option<Map<Seq<char>, Seq<char>>>,
    pub match_expressions: Option<Seq<LabelSelectorRequirementView>>,
}

impl DeepView for LabelSelector {
    type V = LabelSelectorView;

    open spec fn deep_view(&self) -> LabelSelectorView {
        LabelSelectorView {
            match_labels: self.match_labels.deep_view(),
            match_expressions: self.match_expressions.deep_view(),
        }
    }
}

/// The namespace policy of a listener.
#[derive(Clone, Debug, Default, PartialEq, Eq)]
pub struct GatewayListenersAllowedRoutesNamespaces {
    pub from: Option<GatewayListenersAllowedRoutesNamespacesFrom>,
    pub selector: Option<LabelSelector>,
}

/// What a [`GatewayListenersAllowedRoutesNamespaces`] denotes.
#[verifier::ext_equal]
pub struct GatewayListenersAllowedRoutesNamespacesView {
    pub from: Option<GatewayListenersAllowedRoutesNamespacesFrom>,
    pub selector: Option<LabelSelectorView>,
}

impl DeepView for GatewayListenersAllowedRoutesNamespaces {
    type V = GatewayListenersAllowedRoutesNamespacesView;

    open spec fn deep_view(&self) -> GatewayListenersAllowedRoutesNamespacesView {
        GatewayListenersAllowedRoutesNamespacesView {
            from: self.from.deep_view(),
            selector: self.selector.deep_view(),
        }
    }
}

/// Which routes may attach to a listener.
#[derive(Clone, Debug, Default, PartialEq, Eq)]
pub struct GatewayListenersAllowedRoutes {
    pub kinds: Option<Vec<GatewayListenersAllowedRoutesKinds>>,
    pub namespaces: Option<GatewayListenersAllowedRoutesNamespaces>,
}

/// What a [`GatewayListenersAllowedRoutes`] denotes.
#[verifier::ext_equal]
pub struct GatewayListenersAllowedRoutesView {
    pub kinds: Option<Seq<GatewayListenersAllowedRoutesKindsView>>,
    pub namespaces: Option<GatewayListenersAllowedRoutesNamespacesView>,
}

impl DeepView for GatewayListenersAllowedRoutes {
    type V = GatewayListenersAllowedRoutesView;

    open spec fn deep_view(&self) -> GatewayListenersAllowedRoutesView {
        GatewayListenersAllowedRoutesView {
            kinds: self.kinds.deep_view(),
            namespaces: self.namespaces.deep_view(),
        }
    }
}

/// A listener of a Gateway.
#[derive(Clone, Debug, Default, PartialEq, Eq)]
pub struct GatewayListeners {
    pub name: String,
    pub hostname: Option<String>,
    pub port: i32,
    pub protocol: String,
    pub tls: Option<GatewayListenersTls>,
    pub allowed_routes: Option<GatewayListenersAllowedRoutes>,
}

/// What a [`GatewayListeners`] denotes.
#[verifier::ext_equal]
pub struct GatewayListenersView {
    pub name: Seq<char>,
    pub hostname: Option<Seq<char>>,
    pub port: i32,
    pub protocol: Seq<char>,
    pub tls: Option<GatewayListenersTlsView>,
    pub allowed_routes: Option<GatewayListenersAllowedRoutesView>,
}

impl DeepView for GatewayListeners {
    type V = GatewayListenersView;

    open spec fn deep_view(&self) -> GatewayListenersView {
        GatewayListenersView {
            name: self.name.deep_view(),
            hostname: self.hostname.deep_view(),
            port: self.port.deep_view(),
            protocol: self.protocol.deep_view(),
            tls: self.tls.deep_view(),
            allowed_routes: self.allowed_routes.deep_view(),
        }
    }
}

/// A requested address of a Gateway.
#[derive(Clone, Debug, Default, PartialEq, Eq)]
pub struct GatewayAddresses {
    pub type_: Option<String>,
    pub value: Option<String>,
}

/// What a [`GatewayAddresses`] denotes.
#[verifier::ext_equal]
pub struct GatewayAddressesView {
    pub type_: Option<Seq<char>>,
    pub value: Option<Seq<char>>,
}

impl DeepView for GatewayAddresses {
    type V = GatewayAddressesView;

    open spec fn deep_view(&self) -> GatewayAddressesView {
        GatewayAddressesView {
            type_: self.type_.deep_view(),
            value: self.value.deep_view(),
        }
    }
}

/// What a Gateway asks for.
#[derive(Clone, Debug, Default, PartialEq, Eq)]
pub struct GatewaySpec {
    pub gateway_class_name: String,
    pub addresses: Option<Vec<GatewayAddresses>>,
    pub listeners: Vec<GatewayListeners>,
}

/// What a [`GatewaySpec`] denotes.
#[verifier::ext_equal]
pub struct GatewaySpecView {
    pub gateway_class_name: Seq<char>,
    pub addresses: Option<Seq<GatewayAddressesView>>,
    pub listeners: Seq<GatewayListenersView>,
}

impl DeepView for GatewaySpec {
    type V = GatewaySpecView;

    open spec fn deep_view(&self) -> GatewaySpecView {
        GatewaySpecView {
            gateway_class_name: self.gateway_class_name.deep_view(),
            addresses: self.addresses.deep_view(),
            listeners: self.listeners.deep_view(),
        }
    }
}

/// A Gateway.
#[derive(Clone, Debug, Default, PartialEq, Eq)]
pub struct Gateway {
    pub metadata: ObjectMeta,
    pub spec: GatewaySpec,
}

/// What a [`Gateway`] denotes.
#[verifier::ext_equal]
pub struct GatewayView {
    pub metadata: ObjectMetaView,
    pub spec: GatewaySpecView,
}

impl DeepView for Gateway {
    type V = GatewayView;

    open spec fn deep_view(&self) -> GatewayView {
        GatewayView {
            metadata: self.metadata.deep_view(),
            spec: self.spec.deep_view(),
        }
    }
}

/// A reference from a route to a parent.
#[derive(Clone, Debug, Default, PartialEq, Eq)]
pub struct RouteParentRef {
    pub group: Option<String>,
    pub kind: Option<String>,
    pub name: String,
    pub namespace: Option<String>,
    pub section_name: Option<String>,
    pub port: Option<i32>,
}

/// What a [`RouteParentRef`] denotes.
#[verifier::ext_equal]
pub struct RouteParentRefView {
    pub group: Option<Seq<char>>,
    pub kind: Option<Seq<char>>,
    pub name: Seq<char>,
    pub namespace: Option<Seq<char>>,
    pub section_name: Option<Seq<char>>,
    pub port: Option<i32>,
}

impl DeepView for RouteParentRef {
    type V = RouteParentRefView;

    open spec fn deep_view(&self) -> RouteParentRefView {
        RouteParentRefView {
            group: self.group.deep_view(),
            kind: self.kind.deep_view(),
            name: self.name.deep_view(),
            namespace: self.namespace.deep_view(),
            section_name: self.section_name.deep_view(),
            port: self.port.deep_view(),
        }
    }
}

/// A request method to match.
#[derive(Clone, Copy, Debug, PartialEq, Eq, Structural)]
pub enum HTTPRouteRulesMatchesMethod {
    Get,
    Head,
    Post,
    Put,
    Delete,
    Connect,
    Options,
    Trace,
    Patch,
}

impl DeepView for HTTPRouteRulesMatchesMethod {
    type V = HTTPRouteRulesMatchesMethod;

    open spec fn deep_view(&self) -> HTTPRouteRulesMatchesMethod {
        *self
    }
}

/// How a path is matched.
#[derive(Clone, Copy, Debug, PartialEq, Eq, Structural)]
pub enum HTTPRouteRulesMatchesPathType {
    Exact,
    PathPrefix,
    RegularExpression,
}

impl DeepView for HTTPRouteRulesMatchesPathType {
    type V = HTTPRouteRulesMatchesPathType;

    open spec fn deep_view(&self) -> HTTPRouteRulesMatchesPathType {
        *self
    }
}

/// How a header or query parameter is matched.
#[derive(Clone, Copy, Debug, PartialEq, Eq, Structural)]
pub enum HTTPRouteRulesMatchesValueType {
    Exact,
    RegularExpression,
}

impl DeepView for HTTPRouteRulesMatchesValueType {
    type V = HTTPRouteRulesMatchesValueType;

    open spec fn deep_view(&self) -> HTTPRouteRulesMatchesValueType {
        *self
    }
}

/// A path to match.
#[derive(Clone, Debug, Default, PartialEq, Eq)]
pub struct HTTPRouteRulesMatchesPath {
    pub type_: Option<HTTPRouteRulesMatchesPathType>,
    pub value: Option<String>,
}

/// What a [`HTTPRouteRulesMatchesPath`] denotes.
#[verifier::ext_equal]
pub struct HTTPRouteRulesMatchesPathView {
    pub type_: Option<HTTPRouteRulesMatchesPathType>,
    pub value: Option<Seq<char>>,
}

impl DeepView for HTTPRouteRulesMatchesPath {
    type V = HTTPRouteRulesMatchesPathView;

    open spec fn deep_view(&self) -> HTTPRouteRulesMatchesPathView {
        HTTPRouteRulesMatchesPathView {
            type_: self.type_.deep_view(),
            value: self.value.deep_view(),
        }
    }
}

/// A header to match.
#[derive(Clone, Debug, Default, PartialEq, Eq)]
pub struct HTTPRouteRulesMatchesHeaders {
    pub name: String,
    pub value: String,
    pub type_: Option<HTTPRouteRulesMatchesValueType>,
}

/// What a [`HTTPRouteRulesMatchesHeaders`] denotes.
#[verifier::ext_equal]
pub struct HTTPRouteRulesMatchesHeadersView {
    pub name: Seq<char>,
    pub value: Seq<char>,
    pub type_: Option<HTTPRouteRulesMatchesValueType>,
}

impl DeepView for HTTPRouteRulesMatchesHeaders {
    type V = HTTPRouteRulesMatchesHeadersView;

    open spec fn deep_view(&self) -> HTTPRouteRulesMatchesHeadersView {
        HTTPRouteRulesMatchesHeadersView {
            name: self.name.deep_view(),
            value: self.value.deep_view(),
            type_: self.type_.deep_view(),
        }
    }
}

/// A query parameter to match.
#[derive(Clone, Debug, Default, PartialEq, Eq)]
pub struct HTTPRouteRulesMatchesQueryParams {
    pub name: String,
    pub value: String,
    pub type_: Option<HTTPRouteRulesMatchesValueType>,
}

/// What a [`HTTPRouteRulesMatchesQueryParams`] denotes.
#[verifier::ext_equal]
pub struct HTTPRouteRulesMatchesQueryParamsView {
    pub name: Seq<char>,
    pub value: Seq<char>,
    pub type_: Option<HTTPRouteRulesMatchesValueType>,
}

impl DeepView for HTTPRouteRulesMatchesQueryParams {
    type V = HTTPRouteRulesMatchesQueryParamsView;

    open spec fn deep_view(&self) -> HTTPRouteRulesMatchesQueryParamsView {
        HTTPRouteRulesMatchesQueryParamsView {
            name: self.name.deep_view(),
            value: self.value.deep_view(),
            type_: self.type_.deep_view(),
        }
    }
}

/// A condition on requests.
#[derive(Clone, Debug, Default, PartialEq, Eq)]
pub struct HTTPRouteRulesMatches {
    pub method: Option<HTTPRouteRulesMatchesMethod>,
    pub path: Option<HTTPRouteRulesMatchesPath>,
    pub headers: Option<Vec<HTTPRouteRulesMatchesHeaders>>,
    pub query_params: Option<Vec<HTTPRouteRulesMatchesQueryParams>>,
}

/// What a [`HTTPRouteRulesMatches`] denotes.
#[verifier::ext_equal]
pub struct HTTPRouteRulesMatchesView {
    pub method: Option<HTTPRouteRulesMatchesMethod>,
    pub path: Option<HTTPRouteRulesMatchesPathView>,
    pub headers: Option<Seq<HTTPRouteRulesMatchesHeadersView>>,
    pub query_params: Option<Seq<HTTPRouteRulesMatchesQueryParamsView>>,
}

impl DeepView for HTTPRouteRulesMatches {
    type V = HTTPRouteRulesMatchesView;

    open spec fn deep_view(&self) -> HTTPRouteRulesMatchesView {
        HTTPRouteRulesMatchesView {
            method: self.method.deep_view(),
            path: self.path.deep_view(),
            headers: self.headers.deep_view(),
            query_params: self.query_params.deep_view(),
        }
    }
}

/// What a filter does.
#[derive(Clone, Copy, Debug, PartialEq, Eq, Structural)]
pub enum HTTPRouteRulesFiltersType {
    RequestHeaderModifier,
    ResponseHeaderModifier,
    RequestMirror,
    RequestRedirect,
    UrlRewrite,
    ExtensionRef,
}

impl DeepView for HTTPRouteRulesFiltersType {
    type V = HTTPRouteRulesFiltersType;

    open spec fn deep_view(&self) -> HTTPRouteRulesFiltersType {
        *self
    }
}

/// A header with its value.
#[derive(Clone, Debug, Default, PartialEq, Eq)]
pub struct HTTPHeader {
    pub name: String,
    pub value: String,
}

/// What a [`HTTPHeader`] denotes.
#[verifier::ext_equal]
pub struct HTTPHeaderView {
    pub name: Seq<char>,
    pub value: Seq<char>,
}

impl DeepView for HTTPHeader {
    type V = HTTPHeaderView;

    open spec fn deep_view(&self) -> HTTPHeaderView {
        HTTPHeaderView {
            name: self.name.deep_view(),
            value: self.value.deep_view(),
        }
    }
}

/// Changes to the headers of a message.
#[derive(Clone, Debug, Default, PartialEq, Eq)]
pub struct HTTPHeaderModifier {
    pub add: Option<Vec<HTTPHeader>>,
    pub set: Option<Vec<HTTPHeader>>,
    pub remove: Option<Vec<String>>,
}

/// What a [`HTTPHeaderModifier`] denotes.
#[verifier::ext_equal]
pub struct HTTPHeaderModifierView {
    pub add: Option<Seq<HTTPHeaderView>>,
    pub set: Option<Seq<HTTPHeaderView>>,
    pub remove: Option<Seq<Seq<char>>>,
}

impl DeepView for HTTPHeaderModifier {
    type V = HTTPHeaderModifierView;

    open spec fn deep_view(&self) -> HTTPHeaderModifierView {
        HTTPHeaderModifierView {
            add: self.add.deep_view(),
            set: self.set.deep_view(),
            remove: self.remove.deep_view(),
        }
    }
}

/// A scheme to redirect to.
#[derive(Clone, Copy, Debug, PartialEq, Eq, Structural)]
pub enum HTTPRouteRulesFiltersRequestRedirectScheme {
    Http,
    Https,
}

impl DeepView for HTTPRouteRulesFiltersRequestRedirectScheme {
    type V = HTTPRouteRulesFiltersRequestRedirectScheme;

    open spec fn deep_view(&self) -> HTTPRouteRulesFiltersRequestRedirectScheme {
        *self
    }
}

/// How a path is rewritten.
#[derive(Clone, Copy, Debug, PartialEq, Eq, Structural)]
pub enum HTTPRouteRulesFiltersPathType {
    ReplaceFullPath,
    ReplacePrefixMatch,
}

impl DeepView for HTTPRouteRulesFiltersPathType {
    type V = HTTPRouteRulesFiltersPathType;

    open spec fn deep_view(&self) -> HTTPRouteRulesFiltersPathType {
        *self
    }
}

/// A path rewrite.
#[derive(Clone, Debug, PartialEq, Eq)]
pub struct HTTPRouteRulesFiltersPath {
    pub type_: HTTPRouteRulesFiltersPathType,
    pub replace_full_path: Option<String>,
    pub replace_prefix_match: Option<String>,
}

/// What a [`HTTPRouteRulesFiltersPath`] denotes.
#[verifier::ext_equal]
pub struct HTTPRouteRulesFiltersPathView {
    pub type_: HTTPRouteRulesFiltersPathType,
    pub replace_full_path: Option<Seq<char>>,
    pub replace_prefix_match: Option<Seq<char>>,
}

impl DeepView for HTTPRouteRulesFiltersPath {
    type V = HTTPRouteRulesFiltersPathView;

    open spec fn deep_view(&self) -> HTTPRouteRulesFiltersPathView {
        HTTPRouteRulesFiltersPathView {
            type_: self.type_.deep_view(),
            replace_full_path: self.replace_full_path.deep_view(),
            replace_prefix_match: self.replace_prefix_match.deep_view(),
        }
    }
}

/// A redirect.
#[derive(Clone, Debug, Default, PartialEq, Eq)]
pub struct HTTPRouteRulesFiltersRequestRedirect {
    pub scheme: Option<HTTPRouteRulesFiltersRequestRedirectScheme>,
    pub hostname: Option<String>,
    pub port: Option<i32>,
    pub path: Option<HTTPRouteRulesFiltersPath>,
    pub status_code: Option<i64>,
}

/// What a [`HTTPRouteRulesFiltersRequestRedirect`] denotes.
#[verifier::ext_equal]
pub struct HTTPRouteRulesFiltersRequestRedirectView {
    pub scheme: Option<HTTPRouteRulesFiltersRequestRedirectScheme>,
    pub hostname: Option<Seq<char>>,
    pub port: Option<i32>,
    pub path: Option<HTTPRouteRulesFiltersPathView>,
    pub status_code: Option<i64>,
}

impl DeepView for HTTPRouteRulesFiltersRequestRedirect {
    type V = HTTPRouteRulesFiltersRequestRedirectView;

    open spec fn deep_view(&self) -> HTTPRouteRulesFiltersRequestRedirectView {
        HTTPRouteRulesFiltersRequestRedirectView {
            scheme: self.scheme.deep_view(),
            hostname: self.hostname.deep_view(),
            port: self.port.deep_view(),
            path: self.path.deep_view(),
            status_code: self.status_code.deep_view(),
        }
    }
}

/// A rewrite of the request target.
#[derive(Clone, Debug, Default, PartialEq, Eq)]
pub struct HTTPRouteRulesFiltersUrlRewrite {
    pub hostname: Option<String>,
    pub path: Option<HTTPRouteRulesFiltersPath>,
}

/// What a [`HTTPRouteRulesFiltersUrlRewrite`] denotes.
#[verifier::ext_equal]
pub struct HTTPRouteRulesFiltersUrlRewriteView {
    pub hostname: Option<Seq<char>>,
    pub path: Option<HTTPRouteRulesFiltersPathView>,
}

impl DeepView for HTTPRouteRulesFiltersUrlRewrite {
    type V = HTTPRouteRulesFiltersUrlRewriteView;

    open spec fn deep_view(&self) -> HTTPRouteRulesFiltersUrlRewriteView {
        HTTPRouteRulesFiltersUrlRewriteView {
            hostname: self.hostname.deep_view(),
            path: self.path.deep_view(),
        }
    }
}

/// The backend that mirrored requests go to.
#[derive(Clone, Debug, Default, PartialEq, Eq)]
pub struct HTTPRouteRulesFiltersRequestMirrorBackendRef {
    pub group: Option<String>,
    pub kind: Option<String>,
    pub name: String,
    pub namespace: Option<String>,
    pub port: Option<i32>,
}

/// What a [`HTTPRouteRulesFiltersRequestMirrorBackendRef`] denotes.
#[verifier::ext_equal]
pub struct HTTPRouteRulesFiltersRequestMirrorBackendRefView {
    pub group: Option<Seq<char>>,
    pub kind: Option<Seq<char>>,
    pub name: Seq<char>,
    pub namespace: Option<Seq<char>>,
    pub port: Option<i32>,
}

impl DeepView for HTTPRouteRulesFiltersRequestMirrorBackendRef {
    type V = HTTPRouteRulesFiltersRequestMirrorBackendRefView;

    open spec fn deep_view(&self) -> HTTPRouteRulesFiltersRequestMirrorBackendRefView {
        HTTPRouteRulesFiltersRequestMirrorBackendRefView {
            group: self.group.deep_view(),
            kind: self.kind.deep_view(),
            name: self.name.deep_view(),
            namespace: self.namespace.deep_view(),
            port: self.port.deep_view(),
        }
    }
}

/// A request mirror.
#[derive(Clone, Debug, Default, PartialEq, Eq)]
pub struct HTTPRouteRulesFiltersRequestMirror {
    pub backend_ref: HTTPRouteRulesFiltersRequestMirrorBackendRef,
}

/// What a [`HTTPRouteRulesFiltersRequestMirror`] denotes.
#[verifier::ext_equal]
pub struct HTTPRouteRulesFiltersRequestMirrorView {
    pub backend_ref: HTTPRouteRulesFiltersRequestMirrorBackendRefView,
}

impl DeepView for HTTPRouteRulesFiltersRequestMirror {
    type V = HTTPRouteRulesFiltersRequestMirrorView;

    open spec fn deep_view(&self) -> HTTPRouteRulesFiltersRequestMirrorView {
        HTTPRouteRulesFiltersRequestMirrorView {
            backend_ref: self.backend_ref.deep_view(),
        }
    }
}

/// A filter of a rule, with the section that its type names.
#[derive(Clone, Debug, PartialEq, Eq)]
pub struct HTTPRouteRulesFilters {
    pub type_: HTTPRouteRulesFiltersType,
    pub request_header_modifier: Option<HTTPHeaderModifier>,
    pub response_header_modifier: Option<HTTPHeaderModifier>,
    pub request_mirror: Option<HTTPRouteRulesFiltersRequestMirror>,
    pub request_redirect: Option<HTTPRouteRulesFiltersRequestRedirect>,
    pub url_rewrite: Option<HTTPRouteRulesFiltersUrlRewrite>,
}

/// What a [`HTTPRouteRulesFilters`] denotes.
#[verifier::ext_equal]
pub struct HTTPRouteRulesFiltersView {
    pub type_: HTTPRouteRulesFiltersType,
    pub request_header_modifier: Option<HTTPHeaderModifierView>,
    pub response_header_modifier: Option<HTTPHeaderModifierView>,
    pub request_mirror: Option<HTTPRouteRulesFiltersRequestMirrorView>,
    pub request_redirect: Option<HTTPRouteRulesFiltersRequestRedirectView>,
    pub url_rewrite: Option<HTTPRouteRulesFiltersUrlRewriteView>,
}

impl DeepView for HTTPRouteRulesFilters {
    type V = HTTPRouteRulesFiltersView;

    open spec fn deep_view(&self) -> HTTPRouteRulesFiltersView {
        HTTPRouteRulesFiltersView {
            type_: self.type_.deep_view(),
            request_header_modifier: self.request_header_modifier.deep_view(),
            response_header_modifier: self.response_header_modifier.deep_view(),
            request_mirror: self.request_mirror.deep_view(),
            request_redirect: self.request_redirect.deep_view(),
            url_rewrite: self.url_rewrite.deep_view(),
        }
    }
}

/// A filter of a single backend.
#[derive(Clone, Debug, PartialEq, Eq)]
pub struct HTTPRouteRulesBackendRefsFilters {
    pub type_: HTTPRouteRulesFiltersType,
    pub request_header_modifier: Option<HTTPHeaderModifier>,
    pub response_header_modifier: Option<HTTPHeaderModifier>,
}

/// What a [`HTTPRouteRulesBackendRefsFilters`] denotes.
#[verifier::ext_equal]
pub struct HTTPRouteRulesBackendRefsFiltersView {
    pub type_: HTTPRouteRulesFiltersType,
    pub request_header_modifier: Option<HTTPHeaderModifierView>,
    pub response_header_modifier: Option<HTTPHeaderModifierView>,
}

impl DeepView for HTTPRouteRulesBackendRefsFilters {
    type V = HTTPRouteRulesBackendRefsFiltersView;

    open spec fn deep_view(&self) -> HTTPRouteRulesBackendRefsFiltersView {
        HTTPRouteRulesBackendRefsFiltersView {
            type_: self.type_.deep_view(),
            request_header_modifier: self.request_header_modifier.deep_view(),
            response_header_modifier: self.response_header_modifier.deep_view(),
        }
    }
}

/// A backend of an HTTP rule.
#[derive(Clone, Debug, Default, PartialEq, Eq)]
pub struct HTTPRouteRulesBackendRefs {
    pub group: Option<String>,
    pub kind: Option<String>,
    pub name: String,
    pub namespace: Option<String>,
    pub port: Option<i32>,
    pub weight: Option<i32>,
    pub filters: Option<Vec<HTTPRouteRulesBackendRefsFilters>>,
}

/// What a [`HTTPRouteRulesBackendRefs`] denotes.
#[verifier::ext_equal]
pub struct HTTPRouteRulesBackendRefsView {
    pub group: Option<Seq<char>>,
    pub kind: Option<Seq<char>>,
    pub name: Seq<char>,
    pub namespace: Option<Seq<char>>,
    pub port: Option<i32>,
    pub weight: Option<i32>,
    pub filters: Option<Seq<HTTPRouteRulesBackendRefsFiltersView>>,
}

impl DeepView for HTTPRouteRulesBackendRefs {
    type V = HTTPRouteRulesBackendRefsView;

    open spec fn deep_view(&self) -> HTTPRouteRulesBackendRefsView {
        HTTPRouteRulesBackendRefsView {
            group: self.group.deep_view(),
            kind: self.kind.deep_view(),
            name: self.name.deep_view(),
            namespace: self.namespace.deep_view(),
            port: self.port.deep_view(),
            weight: self.weight.deep_view(),
            filters: self.filters.deep_view(),
        }
    }
}

/// The time limits of a rule, as duration texts.
#[derive(Clone, Debug, Default, PartialEq, Eq)]
pub struct HTTPRouteRulesTimeouts {
    pub request: Option<String>,
    pub backend_request: Option<String>,
}

/// What a [`HTTPRouteRulesTimeouts`] denotes.
#[verifier::ext_equal]
pub struct HTTPRouteRulesTimeoutsView {
    pub request: Option<Seq<char>>,
    pub backend_request: Option<Seq<char>>,
}

impl DeepView for HTTPRouteRulesTimeouts {
    type V = HTTPRouteRulesTimeoutsView;

    open spec fn deep_view(&self) -> HTTPRouteRulesTimeoutsView {
        HTTPRouteRulesTimeoutsView {
            request: self.request.deep_view(),
            backend_request: self.backend_request.deep_view(),
        }
    }
}

/// A rule of an HTTP route.
#[derive(Clone, Debug, Default, PartialEq, Eq)]
pub struct HTTPRouteRules {
    pub matches: Option<Vec<HTTPRouteRulesMatches>>,
    pub filters: Option<Vec<HTTPRouteRulesFilters>>,
    pub backend_refs: Option<Vec<HTTPRouteRulesBackendRefs>>,
    pub timeouts: Option<HTTPRouteRulesTimeouts>,
}

/// What a [`HTTPRouteRules`] denotes.
#[verifier::ext_equal]
pub struct HTTPRouteRulesView {
    pub matches: Option<Seq<HTTPRouteRulesMatchesView>>,
    pub filters: Option<Seq<HTTPRouteRulesFiltersView>>,
    pub backend_refs: Option<Seq<HTTPRouteRulesBackendRefsView>>,
    pub timeouts: Option<HTTPRouteRulesTimeoutsView>,
}

impl DeepView for HTTPRouteRules {
    type V = HTTPRouteRulesView;

    open spec fn deep_view(&self) -> HTTPRouteRulesView {
        HTTPRouteRulesView {
            matches: self.matches.deep_view(),
            filters: self.filters.deep_view(),
            backend_refs: self.backend_refs.deep_view(),
            timeouts: self.timeouts.deep_view(),
        }
    }
}

/// What an HTTP route asks for.
#[derive(Clone, Debug, Default, PartialEq, Eq)]
pub struct HTTPRouteSpec {
    pub parent_refs: Option<Vec<RouteParentRef>>,
    pub hostnames: Option<Vec<String>>,
    pub rules: Option<Vec<HTTPRouteRules>>,
}

/// What a [`HTTPRouteSpec`] denotes.
#[verifier::ext_equal]
pub struct HTTPRouteSpecView {
    pub parent_refs: Option<Seq<RouteParentRefView>>,
    pub hostnames: Option<Seq<Seq<char>>>,
    pub rules: Option<Seq<HTTPRouteRulesView>>,
}

impl DeepView for HTTPRouteSpec {
    type V = HTTPRouteSpecView;

    open spec fn deep_view(&self) -> HTTPRouteSpecView {
        HTTPRouteSpecView {
            parent_refs: self.parent_refs.deep_view(),
            hostnames: self.hostnames.deep_view(),
            rules: self.rules.deep_view(),
        }
    }
}

/// An HTTP route.
#[derive(Clone, Debug, Default, PartialEq, Eq)]
pub struct HTTPRoute {
    pub metadata: ObjectMeta,
    pub spec: HTTPRouteSpec,
}

/// What a [`HTTPRoute`] denotes.
#[verifier::ext_equal]
pub struct HTTPRouteView {
    pub metadata: ObjectMetaView,
    pub spec: HTTPRouteSpecView,
}

impl DeepView for HTTPRoute {
    type V = HTTPRouteView;

    open spec fn deep_view(&self) -> HTTPRouteView {
        HTTPRouteView {
            metadata: self.metadata.deep_view(),
            spec: self.spec.deep_view(),
        }
    }
}

/// A backend of a TCP, TLS or UDP rule.
#[derive(Clone, Debug, Default, PartialEq, Eq)]
pub struct L4BackendRef {
    pub group: Option<String>,
    pub kind: Option<String>,
    pub name: String,
    pub namespace: Option<String>,
    pub port: Option<i32>,
    pub weight: Option<i32>,
}

/// What a [`L4BackendRef`] denotes.
#[verifier::ext_equal]
pub struct L4BackendRefView {
    pub group: Option<Seq<char>>,
    pub kind: Option<Seq<char>>,
    pub name: Seq<char>,
    pub namespace: Option<Seq<char>>,
    pub port: Option<i32>,
    pub weight: Option<i32>,
}

impl DeepView for L4BackendRef {
    type V = L4BackendRefView;

    open spec fn deep_view(&self) -> L4BackendRefView {
        L4BackendRefView {
            group: self.group.deep_view(),
            kind: self.kind.deep_view(),
            name: self.name.deep_view(),
            namespace: self.namespace.deep_view(),
            port: self.port.deep_view(),
            weight: self.weight.deep_view(),
        }
    }
}

/// A rule of a TCP, TLS or UDP route.
#[derive(Clone, Debug, Default, PartialEq, Eq)]
pub struct L4RouteRule {
    pub backend_refs: Vec<L4BackendRef>,
}

/// What a [`L4RouteRule`] denotes.
#[verifier::ext_equal]
pub struct L4RouteRuleView {
    pub backend_refs: Seq<L4BackendRefView>,
}

impl DeepView for L4RouteRule {
    type V = L4RouteRuleView;

    open spec fn deep_view(&self) -> L4RouteRuleView {
        L4RouteRuleView {
            backend_refs: self.backend_refs.deep_view(),
        }
    }
}

/// What a TCP route asks for.
#[derive(Clone, Debug, Default, PartialEq, Eq)]
pub struct TCPRouteSpec {
    pub parent_refs: Option<Vec<RouteParentRef>>,
    pub rules: Vec<L4RouteRule>,
}

/// What a [`TCPRouteSpec`] denotes.
#[verifier::ext_equal]
pub struct TCPRouteSpecView {
    pub parent_refs: Option<Seq<RouteParentRefView>>,
    pub rules: Seq<L4RouteRuleView>,
}

impl DeepView for TCPRouteSpec {
    type V = TCPRouteSpecView;

    open spec fn deep_view(&self) -> TCPRouteSpecView {
        TCPRouteSpecView {
            parent_refs: self.parent_refs.deep_view(),
            rules: self.rules.deep_view(),
        }
    }
}

/// A TCP route.
#[derive(Clone, Debug, Default, PartialEq, Eq)]
pub struct TCPRoute {
    pub metadata: ObjectMeta,
    pub spec: TCPRouteSpec,
}

/// What a [`TCPRoute`] denotes.
#[verifier::ext_equal]
pub struct TCPRouteView {
    pub metadata: ObjectMetaView,
    pub spec: TCPRouteSpecView,
}

impl DeepView for TCPRoute {
    type V = TCPRouteView;

    open spec fn deep_view(&self) -> TCPRouteView {
        TCPRouteView {
            metadata: self.metadata.deep_view(),
            spec: self.spec.deep_view(),
        }
    }
}

/// What a UDP route asks for.
#[derive(Clone, Debug, Default, PartialEq, Eq)]
pub struct UDPRouteSpec {
    pub parent_refs: Option<Vec<RouteParentRef>>,
    pub rules: Vec<L4RouteRule>,
}

/// What a [`UDPRouteSpec`] denotes.
#[verifier::ext_equal]
pub struct UDPRouteSpecView {
    pub parent_refs: Option<Seq<RouteParentRefView>>,
    pub rules: Seq<L4RouteRuleView>,
}

impl DeepView for UDPRouteSpec {
    type V = UDPRouteSpecView;

    open spec fn deep_view(&self) -> UDPRouteSpecView {
        UDPRouteSpecView {
            parent_refs: self.parent_refs.deep_view(),
            rules: self.rules.deep_view(),
        }
    }
}

/// A UDP route.
#[derive(Clone, Debug, Default, PartialEq, Eq)]
pub struct UDPRoute {
    pub metadata: ObjectMeta,
    pub spec: UDPRouteSpec,
}

/// What a [`UDPRoute`] denotes.
#[verifier::ext_equal]
pub struct UDPRouteView {
    pub metadata: ObjectMetaView,
    pub spec: UDPRouteSpecView,
}

impl DeepView for UDPRoute {
    type V = UDPRouteView;

    open spec fn deep_view(&self) -> UDPRouteView {
        UDPRouteView {
            metadata: self.metadata.deep_view(),
            spec: self.spec.deep_view(),
        }
    }
}

/// What a TLS route asks for.
#[derive(Clone, Debug, Default, PartialEq, Eq)]
pub struct TLSRouteSpec {
    pub parent_refs: Option<Vec<RouteParentRef>>,
    pub hostnames: Vec<String>,
    pub rules: Vec<L4RouteRule>,
}

/// What a [`TLSRouteSpec`] denotes.
#[verifier::ext_equal]
pub struct TLSRouteSpecView {
    pub parent_refs: Option<Seq<RouteParentRefView>>,
    pub hostnames: Seq<Seq<char>>,
    pub rules: Seq<L4RouteRuleView>,
}

impl DeepView for TLSRouteSpec {
    type V = TLSRouteSpecView;

    open spec fn deep_view(&self) -> TLSRouteSpecView {
        TLSRouteSpecView {
            parent_refs: self.parent_refs.deep_view(),
            hostnames: self.hostnames.deep_view(),
            rules: self.rules.deep_view(),
        }
    }
}

/// A TLS route.
#[derive(Clone, Debug, Default, PartialEq, Eq)]
pub struct TLSRoute {
    pub metadata: ObjectMeta,
    pub spec: TLSRouteSpec,
}

/// What a [`TLSRoute`] denotes.
#[verifier::ext_equal]
pub struct TLSRouteView {
    pub metadata: ObjectMetaView,
    pub spec: TLSRouteSpecView,
}

impl DeepView for TLSRoute {
    type V = TLSRouteView;

    open spec fn deep_view(&self) -> TLSRouteView {
        TLSRouteView {
            metadata: self.metadata.deep_view(),
            spec: self.spec.deep_view(),
        }
    }
}

/// A source that a grant trusts.
#[derive(Clone, Debug, Default, PartialEq, Eq)]
pub struct ReferenceGrantFrom {
    pub group: String,
    pub kind: String,
    pub namespace: String,
}

/// What a [`ReferenceGrantFrom`] denotes.
#[verifier::ext_equal]
pub struct ReferenceGrantFromView {
    pub group: Seq<char>,
    pub kind: Seq<char>,
    pub namespace: Seq<char>,
}

impl DeepView for ReferenceGrantFrom {
    type V = ReferenceGrantFromView;

    open spec fn deep_view(&self) -> ReferenceGrantFromView {
        ReferenceGrantFromView {
            group: self.group.deep_view(),
            kind: self.kind.deep_view(),
            namespace: self.namespace.deep_view(),
        }
    }
}

/// A target that a grant opens.
#[derive(Clone, Debug, Default, PartialEq, Eq)]
pub struct ReferenceGrantTo {
    pub group: String,
    pub kind: String,
    pub name: Option<String>,
}

/// What a [`ReferenceGrantTo`] denotes.
#[verifier::ext_equal]
pub struct ReferenceGrantToView {
    pub group: Seq<char>,
    pub kind: Seq<char>,
    pub name: Option<Seq<char>>,
}

impl DeepView for ReferenceGrantTo {
    type V = ReferenceGrantToView;

    open spec fn deep_view(&self) -> ReferenceGrantToView {
        ReferenceGrantToView {
            group: self.group.deep_view(),
            kind: self.kind.deep_view(),
            name: self.name.deep_view(),
        }
    }
}

/// What a grant permits.
#[derive(Clone, Debug, Default, PartialEq, Eq)]
pub struct ReferenceGrantSpec {
    pub from: Vec<ReferenceGrantFrom>,
    pub to: Vec<ReferenceGrantTo>,
}

/// What a [`ReferenceGrantSpec`] denotes.
#[verifier::ext_equal]
pub struct ReferenceGrantSpecView {
    pub from: Seq<ReferenceGrantFromView>,
    pub to: Seq<ReferenceGrantToView>,
}

impl DeepView for ReferenceGrantSpec {
    type V = ReferenceGrantSpecView;

    open spec fn deep_view(&self) -> ReferenceGrantSpecView {
        ReferenceGrantSpecView {
            from: self.from.deep_view(),
            to: self.to.deep_view(),
        }
    }
}

/// A permission for references across namespaces.
#[derive(Clone, Debug, Default, PartialEq, Eq)]
pub struct ReferenceGrant {
    pub metadata: ObjectMeta,
    pub spec: ReferenceGrantSpec,
}

/// What a [`ReferenceGrant`] denotes.
#[verifier::ext_equal]
pub struct ReferenceGrantView {
    pub metadata: ObjectMetaView,
    pub spec: ReferenceGrantSpecView,
}

impl DeepView for ReferenceGrant {
    type V = ReferenceGrantView;

    open spec fn deep_view(&self) -> ReferenceGrantView {
        ReferenceGrantView {
            metadata: self.metadata.deep_view(),
            spec: self.spec.deep_view(),
        }
    }
}

/// A port given by number or by name.
#[derive(Clone, Debug, PartialEq, Eq)]
pub enum IntOrString {
    Int(i32),
    String(String),
}

/// What an [`IntOrString`] denotes.
#[verifier::ext_equal]
pub enum IntOrStringView {
    Int(i32),
    String(Seq<char>),
}

impl DeepView for IntOrString {
    type V = IntOrStringView;

    open spec fn deep_view(&self) -> IntOrStringView {
        match self {
            IntOrString::Int(n) => IntOrStringView::Int(*n),
            IntOrString::String(s) => IntOrStringView::String(s@),
        }
    }
}

/// A port of a Service.
#[derive(Clone, Debug, Default, PartialEq, Eq)]
pub struct ServicePort {
    pub port: i32,
    pub target_port: Option<IntOrString>,
    pub app_protocol: Option<String>,
}

/// What a [`ServicePort`] denotes.
#[verifier::ext_equal]
pub struct ServicePortView {
    pub port: i32,
    pub target_port: Option<IntOrStringView>,
    pub app_protocol: Option<Seq<char>>,
}

impl DeepView for ServicePort {
    type V = ServicePortView;

    open spec fn deep_view(&self) -> ServicePortView {
        ServicePortView {
            port: self.port.deep_view(),
            target_port: self.target_port.deep_view(),
            app_protocol: self.app_protocol.deep_view(),
        }
    }
}

/// What a Service asks for.
#[derive(Clone, Debug, Default, PartialEq, Eq)]
pub struct ServiceSpec {
    pub cluster_ip: Option<String>,
    pub type_: Option<String>,
    pub external_name: Option<String>,
    pub ports: Option<Vec<ServicePort>>,
}

/// What a [`ServiceSpec`] denotes.
#[verifier::ext_equal]
pub struct ServiceSpecView {
    pub cluster_ip: Option<Seq<char>>,
    pub type_: Option<Seq<char>>,
    pub external_name: Option<Seq<char>>,
    pub ports: Option<Seq<ServicePortView>>,
}

impl DeepView for ServiceSpec {
    type V = ServiceSpecView;

    open spec fn deep_view(&self) -> ServiceSpecView {
        ServiceSpecView {
            cluster_ip: self.cluster_ip.deep_view(),
            type_: self.type_.deep_view(),
            external_name: self.external_name.deep_view(),
            ports: self.ports.deep_view(),
        }
    }
}

/// A Service.
#[derive(Clone, Debug, Default, PartialEq, Eq)]
pub struct Service {
    pub metadata: ObjectMeta,
    pub spec: Option<ServiceSpec>,
}

/// What a [`Service`] denotes.
#[verifier::ext_equal]
pub struct ServiceView {
    pub metadata: ObjectMetaView,
    pub spec: Option<ServiceSpecView>,
}

impl DeepView for Service {
    type V = ServiceView;

    open spec fn deep_view(&self) -> ServiceView {
        ServiceView {
            metadata: self.metadata.deep_view(),
            spec: self.spec.deep_view(),
        }
    }
}

/// A port that an EndpointSlice publishes.
#[derive(Clone, Debug, Default, PartialEq, Eq)]
pub struct EndpointPort {
    pub name: Option<String>,
    pub port: Option<i32>,
}

/// What a [`EndpointPort`] denotes.
#[verifier::ext_equal]
pub struct EndpointPortView {
    pub name: Option<Seq<char>>,
    pub port: Option<i32>,
}

impl DeepView for EndpointPort {
    type V = EndpointPortView;

    open spec fn deep_view(&self) -> EndpointPortView {
        EndpointPortView {
            name: self.name.deep_view(),
            port: self.port.deep_view(),
        }
    }
}

/// A slice of the endpoints of a Service.
#[derive(Clone, Debug, Default, PartialEq, Eq)]
pub struct EndpointSlice {
    pub ports: Option<Vec<EndpointPort>>,
}

/// What a [`EndpointSlice`] denotes.
#[verifier::ext_equal]
pub struct EndpointSliceView {
    pub ports: Option<Seq<EndpointPortView>>,
}

impl DeepView for EndpointSlice {
    type V = EndpointSliceView;

    open spec fn deep_view(&self) -> EndpointSliceView {
        EndpointSliceView {
            ports: self.ports.deep_view(),
        }
    }
}

/// A Secret.
#[derive(Clone, Debug, Default, PartialEq, Eq)]
pub struct Secret {
    pub metadata: ObjectMeta,
    pub data: Option<Table<String, Vec<u8>>>,
}

/// What a [`Secret`] denotes.
#[verifier::ext_equal]
pub struct SecretView {
    pub metadata: ObjectMetaView,
    pub data: Option<Map<Seq<char>, Seq<u8>>>,
}

impl DeepView for Secret {
    type V = SecretView;

    open spec fn deep_view(&self) -> SecretView {
        SecretView {
            metadata: self.metadata.deep_view(),
            data: self.data.deep_view(),
        }
    }
}

} // verus!
