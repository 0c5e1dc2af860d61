//! The rate-limit policy: a direct attachment to one Gateway, optionally
//! narrowed to one of its listeners.
use crate::kubernetes::parent_ref::GATEWAY_GROUP;
use crate::kubernetes::resources::ObjectMeta;
use crate::text::{opt_is, str_eq};
use vstd::prelude::*;

verus! {

/// A token-bucket rate limit per client.
#[derive(Clone, Debug, PartialEq, Eq)]
pub struct RateLimitPolicySpec {
    /// The Gateway that the policy attaches to, in the policy's own namespace.
    pub target_ref: PolicyTargetRef,
    /// The rate at which a client's bucket refills.
    pub requests_per_second: u32,
    /// How much the bucket holds; as much as it refills in a second where this
    /// is absent.
    pub burst: Option<u32>,
}

/// What a policy attaches to.
#[derive(Clone, Debug, PartialEq, Eq)]
pub struct PolicyTargetRef {
    pub group: String,
    pub kind: String,
    pub name: String,
    /// The listener that the policy is narrowed to; absent for all of the
    /// Gateway.
    pub section_name: Option<String>,
}

/// One entry per Gateway that the policy was evaluated against.
#[derive(Clone, Debug, Default, PartialEq, Eq)]
pub struct RateLimitPolicyStatus {
    pub ancestors: Vec<PolicyAncestorStatus>,
}

/// What became of the policy at one Gateway.
#[derive(Clone, Debug, PartialEq, Eq)]
pub struct PolicyAncestorStatus {
    pub ancestor_ref: PolicyAncestorRef,
    pub controller_name: String,
    pub conditions: Vec<PolicyCondition>,
}

/// A Gateway that a policy was evaluated against.
#[derive(Clone, Debug, PartialEq, Eq)]
pub struct PolicyAncestorRef {
    pub group: String,
    pub kind: String,
    pub namespace: String,
    pub name: String,
}

/// A condition of a policy.
#[derive(Clone, Debug, PartialEq, Eq)]
pub struct PolicyCondition {
    pub type_: String,
    pub status: String,
    pub reason: String,
    pub message: String,
    pub last_transition_time: String,
    pub observed_generation: Option<i64>,
}

/// A rate-limit policy object.
#[derive(Clone, Debug, PartialEq, Eq)]
pub struct RateLimitPolicy {
    pub metadata: ObjectMeta,
    pub spec: RateLimitPolicySpec,
    pub status: Option<RateLimitPolicyStatus>,
}

impl RateLimitPolicy {
    /// Whether the policy attaches to a Gateway: it lives in the Gateway's
    /// namespace and names it.
    pub open spec fn attaches_to(&self, gw_ns: Seq<char>, gw_name: Seq<char>) -> bool {
        let t = self.spec.target_ref;
        &&& self.metadata.namespace.deep_view() == Some(gw_ns)
        &&& t.name@ == gw_name
        &&& t.kind@ == "Gateway"@
        &&& t.group@.len() == 0 || t.group@ == GATEWAY_GROUP@
    }

    /// Whether the policy attaches to a Gateway.
    pub fn targets_gateway(&self, gw_ns: &str, gw_name: &str) -> (r: bool)
        ensures
            r == self.attaches_to(gw_ns@, gw_name@),
    {
        let t = &self.spec.target_ref;
        proof {
            reveal_strlit("");
            assert(t.group@.len() == 0 ==> t.group@ =~= ""@);
        }
        opt_is(&self.metadata.namespace, gw_ns) && str_eq(t.name.as_str(), gw_name) && str_eq(
            t.kind.as_str(),
            "Gateway",
        ) && (str_eq(t.group.as_str(), "") || str_eq(t.group.as_str(), GATEWAY_GROUP))
    }

    /// How much a client's bucket holds.
    pub fn effective_burst(&self) -> (r: u32)
        ensures
            r == (match self.spec.burst {
                Some(b) => b,
                None => self.spec.requests_per_second,
            }),
    {
        match self.spec.burst {
            Some(b) => b,
            None => self.spec.requests_per_second,
        }
    }
}

/// A policy attaches to at most one Gateway.
pub proof fn law_policy_attaches_to_one_gateway(
    p: RateLimitPolicy,
    ns: Seq<char>,
    name: Seq<char>,
    ns2: Seq<char>,
    name2: Seq<char>,
)
    requires
        p.attaches_to(ns, name),
        p.attaches_to(ns2, name2),
    ensures
        ns == ns2,
        name == name2,
{
}

/// A policy attaches to the Gateway that it names in its own namespace, and to
/// nothing where it names another kind or group; an empty group is the Gateway
/// API's.
pub proof fn law_policy_targets(p: RateLimitPolicy, ns: Seq<char>, name: Seq<char>)
    ensures
        p.spec.target_ref.kind@ != "Gateway"@ ==> !p.attaches_to(ns, name),
        p.spec.target_ref.group@.len() > 0 && p.spec.target_ref.group@
            != "gateway.networking.k8s.io"@ ==> !p.attaches_to(ns, name),
        p.spec.target_ref.kind@ == "Gateway"@ && (p.spec.target_ref.group@.len() == 0
            || p.spec.target_ref.group@ == "gateway.networking.k8s.io"@) ==> (p.attaches_to(ns, name)
            <==> p.metadata.namespace is Some && p.metadata.namespace->0@ == ns
            && p.spec.target_ref.name@ == name),
{
}

} // verus!
