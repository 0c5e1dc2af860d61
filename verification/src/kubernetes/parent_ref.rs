//! Which parent references of a route concern a Gateway.
use crate::config::{ParentRef, ParentRefView};
use crate::dup::Dup;
use crate::kubernetes::resources::{RouteParentRef, RouteParentRefView};
use crate::text::{opt_is, str_eq};
use vstd::prelude::*;

verus! {

/// The API group of Gateways and routes.
pub const GATEWAY_GROUP: &'static str = "gateway.networking.k8s.io";

impl RouteParentRefView {
    /// Whether the reference names the Gateway `name` in `ns`. Group, kind and
    /// namespace may be left open.
    pub open spec fn matches_gateway(self, name: Seq<char>, ns: Seq<char>) -> bool {
        &&& self.name == name
        &&& self.group is None || self.group == Some(GATEWAY_GROUP@)
        &&& self.kind is None || self.kind == Some("Gateway"@)
        &&& self.namespace is None || self.namespace == Some(ns)
    }

    /// The attachment that the reference asks for.
    pub open spec fn attachment(self) -> ParentRefView {
        ParentRefView { name: self.name, section_name: self.section_name, port: self.port }
    }
}

/// The references of an optional list.
pub open spec fn refs_of(parent_refs: Option<Seq<RouteParentRefView>>) -> Seq<RouteParentRefView> {
    match parent_refs {
        Some(refs) => refs,
        None => Seq::empty(),
    }
}

/// The references that name the Gateway, in order.
pub open spec fn matching_refs(
    refs: Seq<RouteParentRefView>,
    name: Seq<char>,
    ns: Seq<char>,
) -> Seq<RouteParentRefView>
    decreases refs.len(),
{
    if refs.len() == 0 {
        Seq::empty()
    } else {
        let rest = matching_refs(refs.drop_last(), name, ns);
        if refs.last().matches_gateway(name, ns) {
            rest.push(refs.last())
        } else {
            rest
        }
    }
}

/// Whether some reference names the Gateway.
pub open spec fn targets_gateway(
    parent_refs: Option<Seq<RouteParentRefView>>,
    name: Seq<char>,
    ns: Seq<char>,
) -> bool {
    exists|i: int|
        0 <= i < refs_of(parent_refs).len() && (#[trigger] refs_of(parent_refs)[i]).matches_gateway(
            name,
            ns,
        )
}

/// The attachments that the references to the Gateway ask for, in order.
pub open spec fn attachments(
    refs: Seq<RouteParentRefView>,
    name: Seq<char>,
    ns: Seq<char>,
) -> Seq<ParentRefView> {
    matching_refs(refs, name, ns).map_values(|pr: RouteParentRefView| pr.attachment())
}

/// A route that targets the Gateway has a matching reference, and only then.
pub proof fn lemma_matching_refs_nonempty(
    refs: Seq<RouteParentRefView>,
    name: Seq<char>,
    ns: Seq<char>,
)
    ensures
        matching_refs(refs, name, ns).len() > 0 <==> targets_gateway(Some(refs), name, ns),
        forall|i: int|
            0 <= i < matching_refs(refs, name, ns).len() ==> {
                &&& (#[trigger] matching_refs(refs, name, ns)[i]).matches_gateway(name, ns)
                &&& refs.contains(matching_refs(refs, name, ns)[i])
            },
    decreases refs.len(),
{
    if refs.len() > 0 {
        let init = refs.drop_last();
        lemma_matching_refs_nonempty(init, name, ns);
        if targets_gateway(Some(init), name, ns) {
            let i = choose|i: int| 0 <= i < init.len() && (#[trigger] init[i]).matches_gateway(name, ns);
            assert(refs_of(Some(refs))[i].matches_gateway(name, ns));
        }
        if refs.last().matches_gateway(name, ns) {
            assert(refs_of(Some(refs))[refs.len() - 1].matches_gateway(name, ns));
        } else if targets_gateway(Some(refs), name, ns) {
            let i = choose|i: int|
                0 <= i < refs_of(Some(refs)).len() && (#[trigger] refs_of(
                    Some(refs),
                )[i]).matches_gateway(name, ns);
            assert(refs_of(Some(init))[i].matches_gateway(name, ns));
        }
        assert forall|i: int| 0 <= i < matching_refs(refs, name, ns).len() implies {
            &&& (#[trigger] matching_refs(refs, name, ns)[i]).matches_gateway(name, ns)
            &&& refs.contains(matching_refs(refs, name, ns)[i])
        } by {
            let m = matching_refs(init, name, ns);
            if i < m.len() {
                assert(matching_refs(refs, name, ns)[i] == m[i]);
                assert(init.contains(m[i]));
                let k = choose|k: int| 0 <= k < init.len() && init[k] == m[i];
                assert(refs[k] == m[i]);
            } else {
                assert(refs[refs.len() - 1] == refs.last());
            }
        }
    }
}

/// Whether a parent reference names the Gateway `gateway_name` in `gateway_ns`.
/// Group and kind must be those of a Gateway, or unset; the namespace must be
/// the Gateway's, or unset.
pub fn parent_ref_matches_gateway(pr: &RouteParentRef, gateway_name: &str, gateway_ns: &str) -> (r:
    bool)
    ensures
        r == pr.deep_view().matches_gateway(gateway_name@, gateway_ns@),
{
    str_eq(pr.name.as_str(), gateway_name) && (pr.group.is_none() || opt_is(
        &pr.group,
        GATEWAY_GROUP,
    )) && (pr.kind.is_none() || opt_is(&pr.kind, "Gateway")) && (pr.namespace.is_none() || opt_is(
        &pr.namespace,
        gateway_ns,
    ))
}

/// Whether any parent reference of a route names the Gateway.
pub fn route_targets_gateway(
    parent_refs: &Option<Vec<RouteParentRef>>,
    gateway_name: &str,
    gateway_ns: &str,
) -> (r: bool)
    ensures
        r == targets_gateway(parent_refs.deep_view(), gateway_name@, gateway_ns@),
{
    match parent_refs {
        None => false,
        Some(refs) => {
            let ghost v = refs_of(parent_refs.deep_view());
            let mut i: usize = 0;
            while i < refs.len()
                invariant
                    i <= refs.len(),
                    v == refs_of(parent_refs.deep_view()),
                    v == refs.deep_view(),
                    forall|j: int|
                        0 <= j < i ==> !(#[trigger] v[j]).matches_gateway(
                            gateway_name@,
                            gateway_ns@,
                        ),
                decreases refs.len() - i,
            {
                assert(v[i as int] == refs@[i as int].deep_view());
                if parent_ref_matches_gateway(&refs[i], gateway_name, gateway_ns) {
                    return true;
                }
                i += 1;
            }
            false
        },
    }
}

/// The attachments that a route's references to the Gateway ask for. References
/// to anything else, of whatever name, are left out.
pub fn extract_parent_refs(
    parent_refs: &Option<Vec<RouteParentRef>>,
    gateway_name: &str,
    gateway_ns: &str,
) -> (r: Vec<ParentRef>)
    ensures
        r.deep_view() == attachments(
            refs_of(parent_refs.deep_view()),
            gateway_name@,
            gateway_ns@,
        ),
{
    let mut out: Vec<ParentRef> = Vec::new();
    if let Some(refs) = parent_refs {
        let ghost v = refs.deep_view();
        let mut i: usize = 0;
        assert(out.deep_view() =~= attachments(v.take(0), gateway_name@, gateway_ns@));
        while i < refs.len()
            invariant
                i <= refs.len(),
                v == refs.deep_view(),
                out.deep_view() == attachments(v.take(i as int), gateway_name@, gateway_ns@),
            decreases refs.len() - i,
        {
            let pr = &refs[i];
            let ghost before = out.deep_view();
            proof {
                assert(v.take(i + 1).drop_last() =~= v.take(i as int));
                assert(v.take(i + 1).last() == refs@[i as int].deep_view());
            }
            if parent_ref_matches_gateway(pr, gateway_name, gateway_ns) {
                out.push(
                    ParentRef {
                        name: pr.name.clone(),
                        section_name: pr.section_name.dup(),
                        port: pr.port,
                    },
                );
                assert(out.deep_view() =~= before.push(pr.deep_view().attachment()));
                assert(out.deep_view() =~= attachments(
                    v.take(i + 1),
                    gateway_name@,
                    gateway_ns@,
                ));
            }
            i += 1;
        }
        assert(v.take(v.len() as int) =~= v);
    } else {
        assert(out.deep_view() =~= attachments(Seq::empty(), gateway_name@, gateway_ns@));
    }
    out
}

/// The section names of the references to the Gateway, in order; a route
/// without a list of references has one entry without a section.
pub fn all_section_names_for_gateway(
    parent_refs: &Option<Vec<RouteParentRef>>,
    gateway_name: &str,
    gateway_ns: &str,
) -> (r: Vec<Option<String>>)
    ensures
        r.deep_view() == match parent_refs.deep_view() {
            Some(refs) => matching_refs(refs, gateway_name@, gateway_ns@).map_values(
                |pr: RouteParentRefView| pr.section_name,
            ),
            None => seq![None],
        },
{
    let mut out: Vec<Option<String>> = Vec::new();
    match parent_refs {
        None => {
            out.push(None);
            assert(out.deep_view() =~= seq![None]);
        },
        Some(refs) => {
            let ghost v = refs.deep_view();
            let ghost f = |pr: RouteParentRefView| pr.section_name;
            let mut i: usize = 0;
            assert(out.deep_view() =~= matching_refs(v.take(0), gateway_name@, gateway_ns@).map_values(f));
            while i < refs.len()
                invariant
                    i <= refs.len(),
                    v == refs.deep_view(),
                    f == (|pr: RouteParentRefView| pr.section_name),
                    out.deep_view() == matching_refs(
                        v.take(i as int),
                        gateway_name@,
                        gateway_ns@,
                    ).map_values(f),
                decreases refs.len() - i,
            {
                let ghost before = out.deep_view();
                proof {
                    assert(v.take(i + 1).drop_last() =~= v.take(i as int));
                    assert(v.take(i + 1).last() == refs@[i as int].deep_view());
                }
                if parent_ref_matches_gateway(&refs[i], gateway_name, gateway_ns) {
                    out.push(refs[i].section_name.dup());
                    assert(out.deep_view() =~= before.push(v[i as int].section_name));
                    assert(out.deep_view() =~= matching_refs(
                        v.take(i + 1),
                        gateway_name@,
                        gateway_ns@,
                    ).map_values(f));
                }
                i += 1;
            }
            assert(v.take(v.len() as int) =~= v);
        },
    }
    out
}

/// A route asks for an attachment to the Gateway where it targets the Gateway,
/// and only there; each attachment comes from a reference to it.
pub proof fn law_attachments_are_to_the_gateway(
    refs: Seq<RouteParentRefView>,
    name: Seq<char>,
    ns: Seq<char>,
)
    ensures
        attachments(refs, name, ns).len() > 0 <==> targets_gateway(Some(refs), name, ns),
        forall|a: ParentRefView| #[trigger]
            attachments(refs, name, ns).contains(a) ==> exists|pr: RouteParentRefView| #[trigger]
                refs.contains(pr) && pr.matches_gateway(name, ns) && pr.attachment() == a,
{
    lemma_matching_refs_nonempty(refs, name, ns);
    assert forall|a: ParentRefView| #[trigger]
        attachments(refs, name, ns).contains(a) implies exists|pr: RouteParentRefView| #[trigger]
        refs.contains(pr) && pr.matches_gateway(name, ns) && pr.attachment() == a by {
        let i = choose|i: int|
            0 <= i < attachments(refs, name, ns).len() && attachments(refs, name, ns)[i] == a;
        assert(refs.contains(matching_refs(refs, name, ns)[i]));
    }
}

/// What a reference has to say to name the Gateway: its name, and each of
/// group, kind and namespace rightly or not at all.
pub proof fn law_reference_meaning(pr: RouteParentRefView, name: Seq<char>, ns: Seq<char>)
    ensures
        pr.matches_gateway(name, ns) <==> {
            &&& pr.name == name
            &&& pr.group matches Some(g) ==> g == "gateway.networking.k8s.io"@
            &&& pr.kind matches Some(k) ==> k == "Gateway"@
            &&& pr.namespace matches Some(n) ==> n == ns
        },
        targets_gateway(Some(seq![pr]), name, ns) <==> pr.matches_gateway(name, ns),
        !targets_gateway(None, name, ns),
        pr.attachment().name == pr.name,
        pr.attachment().section_name == pr.section_name,
        pr.attachment().port == pr.port,
{
    let one = refs_of(Some(seq![pr]));
    assert(one[0] == pr);
}

/// References count one by one, in order: one more adds itself where it names
/// the Gateway, and nothing else changes.
pub proof fn law_references_count_one_by_one(
    refs: Seq<RouteParentRefView>,
    pr: RouteParentRefView,
    name: Seq<char>,
    ns: Seq<char>,
)
    ensures
        matching_refs(Seq::empty(), name, ns).len() == 0,
        matching_refs(refs.push(pr), name, ns) == if pr.matches_gateway(name, ns) {
            matching_refs(refs, name, ns).push(pr)
        } else {
            matching_refs(refs, name, ns)
        },
        attachments(refs.push(pr), name, ns) == if pr.matches_gateway(name, ns) {
            attachments(refs, name, ns).push(pr.attachment())
        } else {
            attachments(refs, name, ns)
        },
        targets_gateway(Some(refs.push(pr)), name, ns) <==> targets_gateway(Some(refs), name, ns)
            || pr.matches_gateway(name, ns),
{
    let more = refs.push(pr);
    assert(more.drop_last() =~= refs);
    assert(more.last() == pr);
    lemma_matching_refs_nonempty(refs, name, ns);
    lemma_matching_refs_nonempty(more, name, ns);
    if pr.matches_gateway(name, ns) {
        assert(attachments(more, name, ns) =~= attachments(refs, name, ns).push(pr.attachment()));
    }
}

} // verus!
