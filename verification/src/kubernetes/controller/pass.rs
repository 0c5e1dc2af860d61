//! A reconcile pass, step by step. Between the steps the controller opens
//! listeners, asks the data plane whether they are bound, builds a route table
//! and writes statuses; each step says what to do next from what came of that.
use crate::config::{GatewayConfigView, PortailConfig, PortailConfigView};
use crate::kubernetes::addresses::{
    compute_bind_addresses, substitute_network_addresses, UsableAddresses, UsableAddressesView,
};
use crate::kubernetes::controller::reconcile;
use crate::kubernetes::controller::reconcile::{
    all_routes_accepted, compute_programmed_condition, failed_condition, finish_pass,
    required_endpoints, skip_unchanged, track_gateway_config,
};
use crate::kubernetes::controller::validate;
use crate::kubernetes::controller::validate::{
    resolve_gateway_certs, validate_gateway, Secrets, SecretsView,
};
use crate::kubernetes::converters::CertDataView;
use crate::kubernetes::reconciler;
use crate::kubernetes::reconciler::{
    reconcile_to_config, ClusterSnapshot, ClusterSnapshotView, ReconcileResultView, RouteAcceptance,
};
use crate::kubernetes::resources::{Gateway, GatewayView};
use crate::kubernetes::services::{ServiceState, ServiceStateView};
use crate::kubernetes::status::{
    GatewayCondition, GatewayConditionView, ListenerStatus, ListenerStatusView,
};
use crate::table::Table;
use vstd::prelude::*;

verus! {

// ---------------------------------------------------------------------------
// Planning
// ---------------------------------------------------------------------------

/// What a pass for a Gateway reads.
pub struct PassInput<'a> {
    pub gateway: &'a Gateway,
    pub gw_ns: &'a str,
    pub snapshot: &'a ClusterSnapshot,
    pub secrets: &'a Secrets,
    pub services: &'a ServiceState,
    pub usable: &'a UsableAddresses,
}

/// What a [`PassInput`] denotes.
pub struct PassInputView {
    pub gateway: GatewayView,
    pub gw_ns: Seq<char>,
    pub snapshot: ClusterSnapshotView,
    pub secrets: SecretsView,
    pub services: ServiceStateView,
    pub usable: UsableAddressesView,
}

impl<'a> View for PassInput<'a> {
    type V = PassInputView;

    open spec fn view(&self) -> PassInputView {
        PassInputView {
            gateway: self.gateway.deep_view(),
            gw_ns: self.gw_ns@,
            snapshot: self.snapshot.deep_view(),
            secrets: self.secrets.deep_view(),
            services: self.services.deep_view(),
            usable: self.usable.deep_view(),
        }
    }
}

impl PassInputView {
    /// The certificates that the Gateway uses.
    pub open spec fn certs(self) -> CertDataView {
        validate::gateway_certs(
            self.gateway,
            self.gw_ns,
            self.snapshot.reference_grants,
            self.secrets,
        )
    }

    /// The state of each listener.
    pub open spec fn statuses(self) -> Map<Seq<char>, ListenerStatusView> {
        validate::listener_statuses(
            self.gateway.spec.listeners,
            self.gw_ns,
            self.certs(),
            self.snapshot.reference_grants,
        )
    }

    /// Whether the Gateway is accepted.
    pub open spec fn accepted(self) -> GatewayConditionView {
        validate::gateway_condition(self.gateway, self.statuses())
    }

    /// The configuration with the names of networks among its addresses
    /// replaced by local addresses.
    pub open spec fn addressed(self, c: PortailConfigView) -> PortailConfigView {
        PortailConfigView {
            gateway: GatewayConfigView {
                addresses: c.gateway.addresses.map_values(
                    |a: Seq<char>| self.usable.substitute(a),
                ),
                ..c.gateway
            },
            ..c
        }
    }
}

/// What a pass is about to apply.
#[derive(Debug, PartialEq, Eq)]
pub struct PassPlan {
    pub listener_statuses: Table<String, ListenerStatus>,
    pub accepted: GatewayCondition,
    pub config: PortailConfig,
    pub route_status: Vec<RouteAcceptance>,
    /// The addresses to open the listeners on; all where there are none.
    pub bind_addresses: Vec<String>,
    /// What has to be bound before the Gateway counts as programmed.
    pub required: Vec<(Option<String>, u16)>,
}

/// What is left to report where there is nothing to apply.
#[derive(Debug, PartialEq, Eq)]
pub struct PassFailure {
    pub listener_statuses: Table<String, ListenerStatus>,
    pub accepted: GatewayCondition,
    pub programmed: GatewayCondition,
    pub error: String,
}

impl PassPlan {
    /// Whether this is the plan for `i`, where the cluster comes down to
    /// `result`.
    pub open spec fn plans(&self, i: PassInputView, result: ReconcileResultView) -> bool {
        &&& self.listener_statuses.deep_view() == i.statuses()
        &&& self.listener_statuses.keys_unique()
        &&& self.accepted.deep_view() == i.accepted()
        &&& self.config.deep_view() == i.addressed(result.config)
        &&& self.route_status.deep_view() == result.route_status
        &&& self.bind_addresses.deep_view() == self.config.deep_view().gateway.addresses.filter(
            |a: Seq<char>| i.usable.known().contains(a),
        )
        &&& self.required.deep_view() == reconcile::endpoints(
            self.config.deep_view().gateway.listeners,
            self.bind_addresses.deep_view(),
        )
    }
}

impl PassFailure {
    /// Whether this reports the failure `message` for `i`.
    pub open spec fn reports(&self, i: PassInputView, message: Seq<char>) -> bool {
        &&& self.listener_statuses.deep_view() == i.statuses()
        &&& self.listener_statuses.keys_unique()
        &&& self.accepted.deep_view() == i.accepted()
        &&& self.programmed.deep_view() == (GatewayConditionView {
            ok: false,
            reason: "Invalid"@,
            message: "Reconciliation failed"@ + ": "@ + message,
        })
        &&& self.error@ == message
    }
}

/// The first step: the conditions, the configuration and what to bind; or what
/// to report where the Gateway cannot be converted.
pub fn plan_pass(input: &PassInput) -> (r: Result<PassPlan, PassFailure>)
    ensures
        match reconciler::reconciled(
            input@.gateway,
            input@.snapshot,
            input@.certs(),
            input@.services,
        ) {
            Ok(result) => r matches Ok(p) && p.plans(input@, result),
            Err(e) => r matches Err(f) && f.reports(input@, e.message()),
        },
{
    let cert_data = resolve_gateway_certs(
        input.gateway,
        input.gw_ns,
        &input.snapshot.reference_grants,
        input.secrets,
    );
    let (listener_statuses, accepted) = validate_gateway(
        input.gateway,
        input.gw_ns,
        &cert_data,
        &input.snapshot.reference_grants,
    );
    match reconcile_to_config(input.gateway, input.snapshot, &cert_data, input.services) {
        Err(e) => {
            let error = e.message();
            let programmed = failed_condition("Reconciliation failed", error.as_str());
            Err(PassFailure { listener_statuses, accepted, programmed, error })
        },
        Ok(result) => {
            let mut config = result.config;
            let ghost before = config.deep_view();
            let addresses = substitute_network_addresses(&config.gateway.addresses, input.usable);
            config.gateway.addresses = addresses;
            assert(config.deep_view() =~= input@.addressed(before));
            let bind_addresses = compute_bind_addresses(&config.gateway.addresses, input.usable);
            let required = required_endpoints(&config.gateway.listeners, &bind_addresses);
            Ok(
                PassPlan {
                    listener_statuses,
                    accepted,
                    config,
                    route_status: result.route_status,
                    bind_addresses,
                    required,
                },
            )
        },
    }
}

// ---------------------------------------------------------------------------
// From pass to pass
// ---------------------------------------------------------------------------

/// What the controller keeps from pass to pass.
#[derive(Debug, PartialEq, Eq)]
pub struct ControllerState {
    /// The last configuration of each Gateway.
    pub configs: Table<(String, String), PortailConfig>,
    /// The fingerprint of what is applied, if all of it is.
    pub last_applied: Option<u64>,
    /// Whether the data plane has ever had everything bound.
    pub ready: bool,
}

impl ControllerState {
    /// Whether each Gateway is there once.
    pub open spec fn wf(&self) -> bool {
        self.configs.keys_unique()
    }

    /// The state before the first pass.
    pub fn new() -> (r: ControllerState)
        ensures
            r.wf(),
            r.configs.deep_view() == Map::<(Seq<char>, Seq<char>), PortailConfigView>::empty(),
            r.last_applied is None,
            !r.ready,
    {
        ControllerState { configs: Table::new(), last_applied: None, ready: false }
    }

    /// The second step, once it is known whether everything is bound: readiness
    /// is latched, the Gateway's configuration recorded, and Gateways that are
    /// gone forgotten. Gives the configuration that the data plane is to run.
    pub fn adopt(
        &mut self,
        identity: (String, String),
        config: &PortailConfig,
        live: &Vec<(String, String)>,
        dp_ready: bool,
    ) -> (effective: PortailConfig)
        requires
            old(self).wf(),
        ensures
            final(self).wf(),
            final(self).ready == (old(self).ready || dp_ready),
            final(self).last_applied == old(self).last_applied,
            final(self).configs.deep_view() == reconcile::restricted(
                old(self).configs.deep_view().insert(identity.deep_view(), config.deep_view()),
                live.deep_view(),
            ),
            effective.deep_view() == if final(self).configs.entries@.len() <= 1 {
                config.deep_view()
            } else {
                reconcile::merged_config(final(self).configs.entries.deep_view())
            },
    {
        if dp_ready {
            self.ready = true;
        }
        track_gateway_config(&mut self.configs, identity, config, live)
    }

    /// The third step, once the fingerprint of the pass is known: where all of
    /// it is applied by now, the pass ends, and the result is the seconds until
    /// the next.
    pub fn gate(
        &self,
        fingerprint: u64,
        dp_ready: bool,
        route_status: &Vec<RouteAcceptance>,
    ) -> (r: Option<u64>)
        ensures
            r is Some <==> reconcile::unchanged(self.last_applied, fingerprint),
            r is Some ==> r->0 == (if dp_ready && reconcile::all_accepted(
                route_status.deep_view(),
            ) {
                600u64
            } else {
                60u64
            }),
    {
        match skip_unchanged(
            self.last_applied,
            fingerprint,
            dp_ready,
            all_routes_accepted(route_status),
        ) {
            Some(outcome) => Some(outcome.requeue_secs),
            None => None,
        }
    }

    /// The last step, once the statuses are written: what is applied is
    /// recorded, or forgotten where the route table was not swapped in or a
    /// write failed. Gives the seconds until the next pass.
    pub fn finish(
        &mut self,
        fingerprint: u64,
        swapped: bool,
        programmed: bool,
        route_status: &Vec<RouteAcceptance>,
        statuses_ok: bool,
    ) -> (r: u64)
        requires
            old(self).wf(),
        ensures
            final(self).wf(),
            final(self).configs == old(self).configs,
            final(self).ready == old(self).ready,
            final(self).last_applied == reconcile::applied_after(
                statuses_ok,
                swapped,
                fingerprint,
            ),
            r == (if !statuses_ok {
                10u64
            } else if programmed && reconcile::all_accepted(route_status.deep_view()) {
                600u64
            } else {
                5u64
            }),
    {
        let outcome = finish_pass(
            statuses_ok,
            swapped,
            fingerprint,
            programmed,
            all_routes_accepted(route_status),
        );
        self.last_applied = outcome.last_applied;
        outcome.requeue_secs
    }
}

/// The `Programmed` condition once the route table is built, or could not be:
/// `build_error` says why.
pub fn condition_after_build(build_error: &Option<String>, dp_ready: bool) -> (r: GatewayCondition)
    ensures
        r.deep_view() == (match build_error.deep_view() {
            None => reconcile::programmed_condition(dp_ready),
            Some(e) => GatewayConditionView {
                ok: false,
                reason: "Invalid"@,
                message: "Route table conversion failed"@ + ": "@ + e,
            },
        }),
{
    match build_error {
        None => compute_programmed_condition(dp_ready),
        Some(e) => failed_condition("Route table conversion failed", e.as_str()),
    }
}

/// What a pass plans: the configuration that the cluster comes down to, with
/// the names of networks among its addresses replaced, and nothing else
/// changed; it binds those of the addresses that this pod has.
pub proof fn law_plan_meaning(
    p: PassPlan,
    i: PassInputView,
    result: ReconcileResultView,
    n: int,
    a: Seq<char>,
)
    requires
        p.plans(i, result),
    ensures
        ({
            let c = p.config.deep_view();
            &&& c == (PortailConfigView { gateway: c.gateway, ..result.config })
            &&& c.gateway.name == result.config.gateway.name
            &&& c.gateway.listeners == result.config.gateway.listeners
            &&& c.gateway.addresses.len() == result.config.gateway.addresses.len()
            &&& 0 <= n < c.gateway.addresses.len() ==> c.gateway.addresses[n]
                == i.usable.substitute(result.config.gateway.addresses[n])
            &&& p.route_status.deep_view() == result.route_status
            &&& p.bind_addresses.deep_view().contains(a) <==> c.gateway.addresses.contains(a)
                && i.usable.known().contains(a)
            &&& p.required.deep_view() == reconcile::endpoints(
                c.gateway.listeners,
                p.bind_addresses.deep_view(),
            )
            &&& p.accepted.deep_view() == validate::gateway_condition(
                i.gateway,
                p.listener_statuses.deep_view(),
            )
            &&& p.listener_statuses.deep_view() == validate::listener_statuses(
                i.gateway.spec.listeners,
                i.gw_ns,
                validate::gateway_certs(
                    i.gateway,
                    i.gw_ns,
                    i.snapshot.reference_grants,
                    i.secrets,
                ),
                i.snapshot.reference_grants,
            )
        }),
{
    crate::kubernetes::addresses::law_bind_addresses(
        p.config.deep_view().gateway.addresses,
        i.usable,
        a,
    );
}

/// A pass that fails is not programmed, and says why; the state of its
/// listeners is reported all the same.
pub proof fn law_failure_meaning(f: PassFailure, i: PassInputView, message: Seq<char>)
    requires
        f.reports(i, message),
    ensures
        !f.programmed.deep_view().ok,
        f.programmed.deep_view().reason == "Invalid"@,
        f.programmed.deep_view().message == "Reconciliation failed"@ + ": "@ + message,
        f.error@ == message,
        f.accepted.deep_view() == validate::gateway_condition(
            i.gateway,
            f.listener_statuses.deep_view(),
        ),
        f.listener_statuses.deep_view() == i.statuses(),
{
}

/// A route table that could not be built leaves the Gateway unprogrammed,
/// whatever is bound.
pub proof fn law_build_errors_are_reported(
    build_error: &Option<String>,
    dp_ready: bool,
    r: GatewayCondition,
)
    requires
        call_ensures(condition_after_build, (build_error, dp_ready), r),
    ensures
        r.deep_view().ok <==> build_error is None && dp_ready,
        build_error is Some ==> r.deep_view().reason == "Invalid"@ && r.deep_view().message
            == "Route table conversion failed"@ + ": "@ + build_error->0@,
{
}

} // verus!
