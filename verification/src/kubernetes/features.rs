//! The Gateway API features that this controller supports.
use crate::text;
use crate::text::join_strings;
use vstd::prelude::*;

verus! {

/// The names of the features, in alphabetical order.
pub open spec fn feature_names() -> Seq<Seq<char>> {
    seq![
        "Gateway"@,
        "GatewayAddressEmpty"@,
        "GatewayHTTPListenerIsolation"@,
        "GatewayPort8080"@,
        "HTTPRoute"@,
        "HTTPRouteBackendProtocolWebSocket"@,
        "HTTPRouteBackendRequestHeaderModification"@,
        "HTTPRouteBackendTimeout"@,
        "HTTPRouteDestinationPortMatching"@,
        "HTTPRouteHostRewrite"@,
        "HTTPRouteMethodMatching"@,
        "HTTPRouteNamedRouteRule"@,
        "HTTPRouteParentRefPort"@,
        "HTTPRoutePathRedirect"@,
        "HTTPRoutePathRewrite"@,
        "HTTPRoutePortRedirect"@,
        "HTTPRouteQueryParamMatching"@,
        "HTTPRouteRequestHeaderModification"@,
        "HTTPRouteRequestMirror"@,
        "HTTPRouteRequestMultipleMirrors"@,
        "HTTPRouteRequestPercentageMirror"@,
        "HTTPRouteRequestTimeout"@,
        "HTTPRouteResponseHeaderModification"@,
        "HTTPRouteSchemeRedirect"@,
        "ReferenceGrant"@,
        "TLSRoute"@,
        "UDPRoute"@,
    ]
}

/// The names of the features, in alphabetical order.
pub fn supported_features() -> (r: Vec<String>)
    ensures
        r.deep_view() == feature_names(),
{
    let r: Vec<String> = vec![
        "Gateway".to_owned(),
        "GatewayAddressEmpty".to_owned(),
        "GatewayHTTPListenerIsolation".to_owned(),
        "GatewayPort8080".to_owned(),
        "HTTPRoute".to_owned(),
        "HTTPRouteBackendProtocolWebSocket".to_owned(),
        "HTTPRouteBackendRequestHeaderModification".to_owned(),
        "HTTPRouteBackendTimeout".to_owned(),
        "HTTPRouteDestinationPortMatching".to_owned(),
        "HTTPRouteHostRewrite".to_owned(),
        "HTTPRouteMethodMatching".to_owned(),
        "HTTPRouteNamedRouteRule".to_owned(),
        "HTTPRouteParentRefPort".to_owned(),
        "HTTPRoutePathRedirect".to_owned(),
        "HTTPRoutePathRewrite".to_owned(),
        "HTTPRoutePortRedirect".to_owned(),
        "HTTPRouteQueryParamMatching".to_owned(),
        "HTTPRouteRequestHeaderModification".to_owned(),
        "HTTPRouteRequestMirror".to_owned(),
        "HTTPRouteRequestMultipleMirrors".to_owned(),
        "HTTPRouteRequestPercentageMirror".to_owned(),
        "HTTPRouteRequestTimeout".to_owned(),
        "HTTPRouteResponseHeaderModification".to_owned(),
        "HTTPRouteSchemeRedirect".to_owned(),
        "ReferenceGrant".to_owned(),
        "TLSRoute".to_owned(),
        "UDPRoute".to_owned(),
    ];
    assert(r.deep_view() =~= feature_names());
    r
}

/// The names of the features with commas between them.
pub fn supported_features_line() -> (r: String)
    ensures
        r@ == text::join(feature_names(), ","@),
{
    join_strings(&supported_features(), ",")
}

} // verus!
