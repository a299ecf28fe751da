//! The Interaction Model dispatcher: Read, Write and Invoke.
//!
//! Each operation takes a list of request elements and answers them in
//! order. A concrete path answers with exactly one element (data or
//! status); a wildcard path expands over the tree in enumeration order and
//! answers only for the targets it reaches, never with an error status.
//! Access control is consulted per concrete target; writes are applied in
//! listed order, so a write to the access-control list changes what the
//! rest of the same batch is allowed to do.

use vstd::prelude::*;

use crate::acl::AccessReq;
use crate::acl::Accessor;
use crate::acl::AclEntryView;
use crate::acl::AclMgr;
use crate::acl::Privilege;
use crate::acl::spec_allows;
use crate::acl::MAX_ACL_ENTRIES;
use crate::dm::Attribute;
use crate::dm::spec_bump_data_ver;
use crate::dm::spec_write_value;
use crate::dm::ClusterView;
use crate::dm::EndpointView;
use crate::dm::Node;
use crate::dm::NodeView;
use crate::dm::CmdEffect;
use crate::dm::Command;
use crate::dm::spec_attr;
use crate::dm::spec_cluster_idx;
use crate::dm::spec_cmd;
use crate::dm::spec_cmd_idx;
use crate::dm::spec_has_cmd;
use crate::dm::spec_cluster;
use crate::dm::spec_has_attr;
use crate::dm::spec_has_cluster;
use crate::dm::spec_has_ep;
use crate::im::ACL_ATTR_ID;
use crate::im::ACL_CLUSTER_ID;
use crate::im::AttrData;
use crate::im::AttrDataResp;
use crate::im::AttrDataView;
use crate::im::AttrValue;
use crate::im::AttrValueView;
use crate::im::AttrPath;
use crate::im::AttrResp;
use crate::im::AttrStatus;
use crate::im::CmdData;
use crate::im::CmdDataResp;
use crate::im::CmdPath;
use crate::im::CmdStatus;
use crate::im::DataVersionFilter;
use crate::im::InvResp;
use crate::im::GenericPath;
use crate::im::IMStatusCode;

verus! {

/// The access request for one concrete target.
pub open spec fn spec_access_req(acc: Accessor, ep: u16, cl: u32, p: Privilege) -> AccessReq {
    AccessReq { fab_idx: acc.fab_idx, endpoint: ep, cluster: cl, privilege: p }
}

/// Whether some filter names this cluster instance at this data version.
pub open spec fn spec_filter_matches(
    filters: Seq<DataVersionFilter>,
    ep: u16,
    cl: u32,
    ver: u32,
) -> bool {
    exists|i: int|
        0 <= i < filters.len() && filters[i].path.endpoint == ep && filters[i].path.cluster == cl
            && filters[i].data_ver == ver
}

fn filter_matches(filters: &Vec<DataVersionFilter>, ep: u16, cl: u32, ver: u32) -> (r: bool)
    ensures
        r == spec_filter_matches(filters@, ep, cl, ver),
{
    let mut i: usize = 0;
    while i < filters.len()
        invariant
            i <= filters@.len(),
            forall|j: int|
                0 <= j < i ==> !(filters@[j].path.endpoint == ep && filters@[j].path.cluster == cl
                    && filters@[j].data_ver == ver),
        decreases filters@.len() - i,
    {
        let f = &filters[i];
        if f.path.endpoint == ep && f.path.cluster == cl && f.data_ver == ver {
            return true;
        }
        i = i + 1;
    }
    false
}

/// What a read of one reached concrete target adds to the report: nothing
/// when access is denied or a filter names the cluster's current version,
/// else the value with its path and data version.
pub open spec fn spec_read_target(
    acl: Seq<AclEntryView>,
    acc: Accessor,
    ep: u16,
    cluster: ClusterView,
    attr: Attribute,
    filters: Seq<DataVersionFilter>,
) -> Seq<AttrResp> {
    if !spec_allows(acl, acc, spec_access_req(acc, ep, cluster.id, attr.read_priv)) {
        Seq::<AttrResp>::empty()
    } else if spec_filter_matches(filters, ep, cluster.id, cluster.data_ver) {
        Seq::<AttrResp>::empty()
    } else {
        seq![
            AttrResp::Data(
                AttrDataResp {
                    data_ver: cluster.data_ver,
                    path: GenericPath {
                        endpoint: Some(ep),
                        cluster: Some(cluster.id),
                        leaf: Some(attr.id),
                    },
                    data: attr.value,
                },
            ),
        ]
    }
}

/// What a concrete read request answers: a status for a denied or
/// unresolved path, nothing for a filtered one, else the data.
pub open spec fn spec_read_concrete(
    n: NodeView,
    acl: Seq<AclEntryView>,
    acc: Accessor,
    p: GenericPath,
    filters: Seq<DataVersionFilter>,
) -> Seq<AttrResp>
    recommends
        p.spec_is_concrete(),
{
    let ep = p.endpoint.unwrap();
    let cl = p.cluster.unwrap();
    let at = p.leaf.unwrap();
    if spec_has_attr(n, ep, cl, at) {
        let attr = spec_attr(n, ep, cl, at);
        if !spec_allows(acl, acc, spec_access_req(acc, ep, cl, attr.read_priv)) {
            seq![
                AttrResp::Status(
                    AttrStatus { path: p, status: IMStatusCode::UnsupportedAccess, cluster_status: 0 },
                ),
            ]
        } else {
            spec_read_target(acl, acc, ep, spec_cluster(n, ep, cl), attr, filters)
        }
    } else if !spec_allows(acl, acc, spec_access_req(acc, ep, cl, Privilege::View)) {
        seq![
            AttrResp::Status(
                AttrStatus { path: p, status: IMStatusCode::UnsupportedAccess, cluster_status: 0 },
            ),
        ]
    } else if !spec_has_ep(n, ep) {
        seq![
            AttrResp::Status(
                AttrStatus { path: p, status: IMStatusCode::UnsupportedEndpoint, cluster_status: 0 },
            ),
        ]
    } else if !spec_has_cluster(n, ep, cl) {
        seq![
            AttrResp::Status(
                AttrStatus { path: p, status: IMStatusCode::UnsupportedCluster, cluster_status: 0 },
            ),
        ]
    } else {
        seq![
            AttrResp::Status(
                AttrStatus { path: p, status: IMStatusCode::UnsupportedAttribute, cluster_status: 0 },
            ),
        ]
    }
}

/// A wildcard read over the attributes of one cluster, in declaration order.
pub open spec fn spec_read_wild_attrs(
    acl: Seq<AclEntryView>,
    acc: Accessor,
    ep: u16,
    cluster: ClusterView,
    attrs: Seq<Attribute>,
    leaf: Option<u32>,
    filters: Seq<DataVersionFilter>,
) -> Seq<AttrResp>
    decreases attrs.len(),
{
    if attrs.len() == 0 {
        Seq::<AttrResp>::empty()
    } else {
        spec_read_wild_attrs(acl, acc, ep, cluster, attrs.drop_last(), leaf, filters) + (
        if leaf is None || leaf == Some(attrs.last().id) {
            spec_read_target(acl, acc, ep, cluster, attrs.last(), filters)
        } else {
            Seq::<AttrResp>::empty()
        })
    }
}

/// A wildcard read over the clusters of one endpoint, in declaration order.
pub open spec fn spec_read_wild_clusters(
    acl: Seq<AclEntryView>,
    acc: Accessor,
    ep: u16,
    cls: Seq<ClusterView>,
    p: GenericPath,
    filters: Seq<DataVersionFilter>,
) -> Seq<AttrResp>
    decreases cls.len(),
{
    if cls.len() == 0 {
        Seq::<AttrResp>::empty()
    } else {
        spec_read_wild_clusters(acl, acc, ep, cls.drop_last(), p, filters) + (
        if p.cluster is None || p.cluster == Some(cls.last().id) {
            spec_read_wild_attrs(acl, acc, ep, cls.last(), cls.last().attributes, p.leaf, filters)
        } else {
            Seq::<AttrResp>::empty()
        })
    }
}

/// A wildcard read over the endpoints of the node, in enumeration order.
pub open spec fn spec_read_wild_eps(
    acl: Seq<AclEntryView>,
    acc: Accessor,
    eps: Seq<EndpointView>,
    p: GenericPath,
    filters: Seq<DataVersionFilter>,
) -> Seq<AttrResp>
    decreases eps.len(),
{
    if eps.len() == 0 {
        Seq::<AttrResp>::empty()
    } else {
        spec_read_wild_eps(acl, acc, eps.drop_last(), p, filters) + (
        if p.endpoint is None || p.endpoint == Some(eps.last().id) {
            spec_read_wild_clusters(acl, acc, eps.last().id, eps.last().clusters, p, filters)
        } else {
            Seq::<AttrResp>::empty()
        })
    }
}

/// What one read request element answers.
pub open spec fn spec_read_one(
    n: NodeView,
    acl: Seq<AclEntryView>,
    acc: Accessor,
    p: GenericPath,
    filters: Seq<DataVersionFilter>,
) -> Seq<AttrResp> {
    if p.spec_is_concrete() {
        spec_read_concrete(n, acl, acc, p, filters)
    } else {
        spec_read_wild_eps(acl, acc, n.endpoints, p, filters)
    }
}

/// What a whole Read request answers: the requests' answers in order.
pub open spec fn spec_read_all(
    n: NodeView,
    acl: Seq<AclEntryView>,
    acc: Accessor,
    reqs: Seq<AttrPath>,
    filters: Seq<DataVersionFilter>,
) -> Seq<AttrResp>
    decreases reqs.len(),
{
    if reqs.len() == 0 {
        Seq::<AttrResp>::empty()
    } else {
        spec_read_all(n, acl, acc, reqs.drop_last(), filters) + spec_read_one(
            n,
            acl,
            acc,
            reqs.last().path,
            filters,
        )
    }
}

fn read_target(
    aclm: &AclMgr,
    acc: &Accessor,
    ep: u16,
    cluster: &crate::dm::Cluster,
    ai: usize,
    filters: &Vec<DataVersionFilter>,
    out: &mut Vec<AttrResp>,
)
    requires
        ai < cluster@.attributes.len(),
    ensures
        final(out)@ == old(out)@ + spec_read_target(
            aclm@,
            *acc,
            ep,
            cluster@,
            cluster@.attributes[ai as int],
            filters@,
        ),
{
    let attr = cluster.attributes[ai];
    let req = AccessReq {
        fab_idx: acc.fab_idx,
        endpoint: ep,
        cluster: cluster.id,
        privilege: attr.read_priv,
    };
    if !aclm.allow(acc, &req) {
        return ;
    }
    if filter_matches(filters, ep, cluster.id, cluster.data_ver) {
        return ;
    }
    out.push(
        AttrResp::Data(
            AttrDataResp {
                data_ver: cluster.data_ver,
                path: GenericPath {
                    endpoint: Some(ep),
                    cluster: Some(cluster.id),
                    leaf: Some(attr.id),
                },
                data: attr.value,
            },
        ),
    );
}

fn read_concrete(
    node: &Node,
    aclm: &AclMgr,
    acc: &Accessor,
    p: &GenericPath,
    filters: &Vec<DataVersionFilter>,
    out: &mut Vec<AttrResp>,
)
    requires
        p.spec_is_concrete(),
    ensures
        final(out)@ == old(out)@ + spec_read_concrete(node@, aclm@, *acc, *p, filters@),
{
    let ep = p.endpoint.unwrap();
    let cl = p.cluster.unwrap();
    let at = p.leaf.unwrap();
    let ei_opt = node.find_endpoint(ep);
    if let Some(ei) = ei_opt {
        proof {
            assert(node@.endpoints[ei as int] == node.endpoints@[ei as int]@);
        }
        let ci_opt = node.endpoints[ei].find_cluster(cl);
        if let Some(ci) = ci_opt {
            proof {
                assert(node@.endpoints[ei as int].clusters[ci as int] == node.endpoints@[ei as int].clusters@[ci as int]@);
            }
            let cluster = &node.endpoints[ei].clusters[ci];
            let ai_opt = cluster.find_attribute(at);
            if let Some(ai) = ai_opt {
                let attr = cluster.attributes[ai];
                proof {
                    assert(spec_has_attr(node@, ep, cl, at));
                    assert(spec_cluster(node@, ep, cl) == cluster@);
                    assert(spec_attr(node@, ep, cl, at) == attr);
                }
                let req = AccessReq {
                    fab_idx: acc.fab_idx,
                    endpoint: ep,
                    cluster: cl,
                    privilege: attr.read_priv,
                };
                if !aclm.allow(acc, &req) {
                    out.push(
                        AttrResp::Status(
                            AttrStatus {
                                path: *p,
                                status: IMStatusCode::UnsupportedAccess,
                                cluster_status: 0,
                            },
                        ),
                    );
                    return ;
                }
                proof {
                    assert(cluster@.id == cl);
                }
                read_target(aclm, acc, ep, cluster, ai, filters, out);
                return ;
            }
        }
    }
    // the path does not resolve
    let req = AccessReq {
        fab_idx: acc.fab_idx,
        endpoint: ep,
        cluster: cl,
        privilege: Privilege::View,
    };
    let status = if !aclm.allow(acc, &req) {
        IMStatusCode::UnsupportedAccess
    } else if ei_opt.is_none() {
        IMStatusCode::UnsupportedEndpoint
    } else {
        // the endpoint resolved; decide between a missing cluster and a
        // missing attribute
        let ei = ei_opt.unwrap();
        proof {
            assert(node@.endpoints[ei as int] == node.endpoints@[ei as int]@);
        }
        if node.endpoints[ei].find_cluster(cl).is_none() {
            IMStatusCode::UnsupportedCluster
        } else {
            IMStatusCode::UnsupportedAttribute
        }
    };
    out.push(AttrResp::Status(AttrStatus { path: *p, status, cluster_status: 0 }));
}

fn read_wild_cluster(
    aclm: &AclMgr,
    acc: &Accessor,
    ep: u16,
    cluster: &crate::dm::Cluster,
    leaf: Option<u32>,
    filters: &Vec<DataVersionFilter>,
    out: &mut Vec<AttrResp>,
)
    ensures
        final(out)@ == old(out)@ + spec_read_wild_attrs(
            aclm@,
            *acc,
            ep,
            cluster@,
            cluster@.attributes,
            leaf,
            filters@,
        ),
{
    let mut k: usize = 0;
    while k < cluster.attributes.len()
        invariant
            k <= cluster@.attributes.len(),
            out@ == old(out)@ + spec_read_wild_attrs(
                aclm@,
                *acc,
                ep,
                cluster@,
                cluster@.attributes.take(k as int),
                leaf,
                filters@,
            ),
        decreases cluster@.attributes.len() - k,
    {
        let ghost prefix = cluster@.attributes.take(k as int);
        let ghost next = cluster@.attributes.take(k as int + 1);
        proof {
            assert(next.drop_last() =~= prefix);
            assert(next.last() == cluster@.attributes[k as int]);
        }
        let matches = match leaf {
            None => true,
            Some(l) => cluster.attributes[k].id == l,
        };
        if matches {
            read_target(aclm, acc, ep, cluster, k, filters, out);
        }
        k = k + 1;
    }
    proof {
        assert(cluster@.attributes.take(cluster@.attributes.len() as int) =~= cluster@.attributes);
    }
}

fn read_wild_ep(
    aclm: &AclMgr,
    acc: &Accessor,
    ep: &crate::dm::Endpoint,
    p: &GenericPath,
    filters: &Vec<DataVersionFilter>,
    out: &mut Vec<AttrResp>,
)
    ensures
        final(out)@ == old(out)@ + spec_read_wild_clusters(
            aclm@,
            *acc,
            ep.id,
            ep@.clusters,
            *p,
            filters@,
        ),
{
    let mut k: usize = 0;
    while k < ep.clusters.len()
        invariant
            k <= ep@.clusters.len(),
            out@ == old(out)@ + spec_read_wild_clusters(
                aclm@,
                *acc,
                ep.id,
                ep@.clusters.take(k as int),
                *p,
                filters@,
            ),
        decreases ep@.clusters.len() - k,
    {
        let ghost prefix = ep@.clusters.take(k as int);
        let ghost next = ep@.clusters.take(k as int + 1);
        proof {
            assert(next.drop_last() =~= prefix);
            assert(next.last() == ep@.clusters[k as int]);
            assert(ep@.clusters[k as int] == ep.clusters@[k as int]@);
        }
        let matches = match p.cluster {
            None => true,
            Some(c) => ep.clusters[k].id == c,
        };
        if matches {
            read_wild_cluster(aclm, acc, ep.id, &ep.clusters[k], p.leaf, filters, out);
        }
        k = k + 1;
    }
    proof {
        assert(ep@.clusters.take(ep@.clusters.len() as int) =~= ep@.clusters);
    }
}

fn read_wild(
    node: &Node,
    aclm: &AclMgr,
    acc: &Accessor,
    p: &GenericPath,
    filters: &Vec<DataVersionFilter>,
    out: &mut Vec<AttrResp>,
)
    ensures
        final(out)@ == old(out)@ + spec_read_wild_eps(aclm@, *acc, node@.endpoints, *p, filters@),
{
    let mut k: usize = 0;
    while k < node.endpoints.len()
        invariant
            k <= node@.endpoints.len(),
            out@ == old(out)@ + spec_read_wild_eps(
                aclm@,
                *acc,
                node@.endpoints.take(k as int),
                *p,
                filters@,
            ),
        decreases node@.endpoints.len() - k,
    {
        let ghost prefix = node@.endpoints.take(k as int);
        let ghost next = node@.endpoints.take(k as int + 1);
        proof {
            assert(next.drop_last() =~= prefix);
            assert(next.last() == node@.endpoints[k as int]);
            assert(node@.endpoints[k as int] == node.endpoints@[k as int]@);
        }
        let matches = match p.endpoint {
            None => true,
            Some(e) => node.endpoints[k].id == e,
        };
        if matches {
            read_wild_ep(aclm, acc, &node.endpoints[k], p, filters, out);
        }
        k = k + 1;
    }
    proof {
        assert(node@.endpoints.take(node@.endpoints.len() as int) =~= node@.endpoints);
    }
}

/// Answers a Read request: one answer list, the requests' answers in order.
///
/// A concrete path yields exactly one element: its data, or
/// `UnsupportedAccess` where the list denies it, or the matching
/// `Unsupported*` status where it does not resolve — unless a filter names
/// the cluster's current data version, in which case it yields nothing. A
/// wildcard path yields data for every reached target and never a status.
pub fn read_reqs(
    node: &Node,
    aclm: &AclMgr,
    acc: &Accessor,
    reqs: &Vec<AttrPath>,
    filters: &Vec<DataVersionFilter>,
) -> (out: Vec<AttrResp>)
    ensures
        out@ == spec_read_all(node@, aclm@, *acc, reqs@, filters@),
{
    let mut out: Vec<AttrResp> = Vec::new();
    let mut i: usize = 0;
    while i < reqs.len()
        invariant
            i <= reqs@.len(),
            out@ == spec_read_all(node@, aclm@, *acc, reqs@.take(i as int), filters@),
        decreases reqs@.len() - i,
    {
        let ghost prefix = reqs@.take(i as int);
        let ghost next = reqs@.take(i as int + 1);
        proof {
            assert(next.drop_last() =~= prefix);
            assert(next.last() == reqs@[i as int]);
        }
        let p = reqs[i].path;
        if p.is_concrete() {
            read_concrete(node, aclm, acc, &p, filters, &mut out);
        } else {
            read_wild(node, aclm, acc, &p, filters, &mut out);
        }
        i = i + 1;
    }
    proof {
        assert(reqs@.take(reqs@.len() as int) =~= reqs@);
    }
    out
}

} // verus!

verus! {

/// What one write does once its target is fixed: an entry appended to the
/// access-control list (which absorbs writes to the list attribute of the
/// access-control cluster) or a value stored in the tree; either way the
/// owning cluster's data version moves up by one. The flag says whether the
/// payload fit the target; nothing changes when it did not.
pub open spec fn spec_apply_write(
    n: NodeView,
    acl: Seq<AclEntryView>,
    ep: u16,
    cl: u32,
    at: u32,
    data: AttrValueView,
) -> (NodeView, Seq<AclEntryView>, bool) {
    if cl == ACL_CLUSTER_ID && at == ACL_ATTR_ID {
        match data {
            AttrValueView::Acl(e) => if acl.len() < MAX_ACL_ENTRIES {
                (spec_bump_data_ver(n, ep, cl), acl.push(e), true)
            } else {
                (n, acl, false)
            },
            AttrValueView::U16(_) => (n, acl, false),
        }
    } else {
        match data {
            AttrValueView::U16(v) => (spec_write_value(n, ep, cl, at, v), acl, true),
            AttrValueView::Acl(_) => (n, acl, false),
        }
    }
}

/// What one concrete write element does and answers: exactly one status —
/// the matching `Unsupported*` where the path does not resolve or is
/// read-only, `UnsupportedAccess` where the list denies the write,
/// `DataVersionMismatch` where a version was supplied and the cluster has
/// moved, else `Success` (or `Failure` for a payload of the wrong kind).
pub open spec fn spec_write_concrete(
    n: NodeView,
    acl: Seq<AclEntryView>,
    acc: Accessor,
    wr: AttrDataView,
) -> (NodeView, Seq<AclEntryView>, Seq<AttrStatus>)
    recommends
        wr.path.spec_is_concrete(),
{
    let p = wr.path;
    let ep = p.endpoint.unwrap();
    let cl = p.cluster.unwrap();
    let at = p.leaf.unwrap();
    if !spec_has_ep(n, ep) {
        (n, acl, seq![AttrStatus { path: p, status: IMStatusCode::UnsupportedEndpoint, cluster_status: 0 }])
    } else if !spec_has_cluster(n, ep, cl) {
        (n, acl, seq![AttrStatus { path: p, status: IMStatusCode::UnsupportedCluster, cluster_status: 0 }])
    } else if !spec_has_attr(n, ep, cl, at) {
        (n, acl, seq![AttrStatus { path: p, status: IMStatusCode::UnsupportedAttribute, cluster_status: 0 }])
    } else {
        let attr = spec_attr(n, ep, cl, at);
        if attr.write_priv is None {
            (n, acl, seq![AttrStatus { path: p, status: IMStatusCode::UnsupportedWrite, cluster_status: 0 }])
        } else if !spec_allows(acl, acc, spec_access_req(acc, ep, cl, attr.write_priv.unwrap())) {
            (n, acl, seq![AttrStatus { path: p, status: IMStatusCode::UnsupportedAccess, cluster_status: 0 }])
        } else if wr.data_ver is Some && wr.data_ver.unwrap() != spec_cluster(n, ep, cl).data_ver {
            (n, acl, seq![AttrStatus { path: p, status: IMStatusCode::DataVersionMismatch, cluster_status: 0 }])
        } else {
            let r = spec_apply_write(n, acl, ep, cl, at, wr.data);
            (
                r.0,
                r.1,
                seq![
                    AttrStatus {
                        path: p,
                        status: if r.2 {
                            IMStatusCode::Success
                        } else {
                            IMStatusCode::Failure
                        },
                        cluster_status: 0,
                    },
                ],
            )
        }
    }
}

/// What one target of a wildcard write does and answers: nothing where the
/// target is gone, read-only, denied, version-mismatched or of the wrong
/// payload kind; a `Success` with the concrete path where the write lands.
pub open spec fn spec_write_wild_one(
    n: NodeView,
    acl: Seq<AclEntryView>,
    acc: Accessor,
    wr: AttrDataView,
    ep: u16,
    cl: u32,
    at: u32,
) -> (NodeView, Seq<AclEntryView>, Seq<AttrStatus>) {
    if !spec_has_attr(n, ep, cl, at) {
        (n, acl, Seq::<AttrStatus>::empty())
    } else {
        let attr = spec_attr(n, ep, cl, at);
        if attr.write_priv is None {
            (n, acl, Seq::<AttrStatus>::empty())
        } else if !spec_allows(acl, acc, spec_access_req(acc, ep, cl, attr.write_priv.unwrap())) {
            (n, acl, Seq::<AttrStatus>::empty())
        } else if wr.data_ver is Some && wr.data_ver.unwrap() != spec_cluster(n, ep, cl).data_ver {
            (n, acl, Seq::<AttrStatus>::empty())
        } else {
            let r = spec_apply_write(n, acl, ep, cl, at, wr.data);
            if r.2 {
                (
                    r.0,
                    r.1,
                    seq![
                        AttrStatus {
                            path: GenericPath {
                                endpoint: Some(ep),
                                cluster: Some(cl),
                                leaf: Some(at),
                            },
                            status: IMStatusCode::Success,
                            cluster_status: 0,
                        },
                    ],
                )
            } else {
                (n, acl, Seq::<AttrStatus>::empty())
            }
        }
    }
}

/// The concrete targets a wildcard path reaches among these attributes.
pub open spec fn spec_expand_attrs(
    ep: u16,
    cl: u32,
    attrs: Seq<Attribute>,
    leaf: Option<u32>,
) -> Seq<(u16, u32, u32)>
    decreases attrs.len(),
{
    if attrs.len() == 0 {
        Seq::<(u16, u32, u32)>::empty()
    } else {
        spec_expand_attrs(ep, cl, attrs.drop_last(), leaf) + (
        if leaf is None || leaf == Some(attrs.last().id) {
            seq![(ep, cl, attrs.last().id)]
        } else {
            Seq::<(u16, u32, u32)>::empty()
        })
    }
}

/// The concrete targets a wildcard path reaches on one endpoint.
pub open spec fn spec_expand_clusters(
    ep: u16,
    cls: Seq<ClusterView>,
    p: GenericPath,
) -> Seq<(u16, u32, u32)>
    decreases cls.len(),
{
    if cls.len() == 0 {
        Seq::<(u16, u32, u32)>::empty()
    } else {
        spec_expand_clusters(ep, cls.drop_last(), p) + (
        if p.cluster is None || p.cluster == Some(cls.last().id) {
            spec_expand_attrs(ep, cls.last().id, cls.last().attributes, p.leaf)
        } else {
            Seq::<(u16, u32, u32)>::empty()
        })
    }
}

/// The concrete targets a wildcard path reaches in the tree, in enumeration
/// order.
pub open spec fn spec_expand_eps(eps: Seq<EndpointView>, p: GenericPath) -> Seq<(u16, u32, u32)>
    decreases eps.len(),
{
    if eps.len() == 0 {
        Seq::<(u16, u32, u32)>::empty()
    } else {
        spec_expand_eps(eps.drop_last(), p) + (
        if p.endpoint is None || p.endpoint == Some(eps.last().id) {
            spec_expand_clusters(eps.last().id, eps.last().clusters, p)
        } else {
            Seq::<(u16, u32, u32)>::empty()
        })
    }
}

/// One wildcard write element, folded over its targets in order; each
/// target sees the tree and the list as the targets before it left them.
pub open spec fn spec_write_fold(
    n: NodeView,
    acl: Seq<AclEntryView>,
    acc: Accessor,
    wr: AttrDataView,
    targets: Seq<(u16, u32, u32)>,
) -> (NodeView, Seq<AclEntryView>, Seq<AttrStatus>)
    decreases targets.len(),
{
    if targets.len() == 0 {
        (n, acl, Seq::<AttrStatus>::empty())
    } else {
        let prev = spec_write_fold(n, acl, acc, wr, targets.drop_last());
        let t = targets.last();
        let step = spec_write_wild_one(prev.0, prev.1, acc, wr, t.0, t.1, t.2);
        (step.0, step.1, prev.2 + step.2)
    }
}

/// What one write element does and answers.
pub open spec fn spec_write_one(
    n: NodeView,
    acl: Seq<AclEntryView>,
    acc: Accessor,
    wr: AttrDataView,
) -> (NodeView, Seq<AclEntryView>, Seq<AttrStatus>) {
    if wr.path.spec_is_concrete() {
        spec_write_concrete(n, acl, acc, wr)
    } else {
        spec_write_fold(n, acl, acc, wr, spec_expand_eps(n.endpoints, wr.path))
    }
}

/// The elements of a Write request as mathematical values.
pub open spec fn spec_attr_data_views(reqs: Seq<AttrData>) -> Seq<AttrDataView> {
    reqs.map(|i: int, w: crate::im::AttrData| w@)
}

/// A whole Write request: elements processed in listed order, each seeing
/// the tree and the access-control list as the elements before it left
/// them — so a write to the list changes what the rest of the batch may do.
pub open spec fn spec_write_all(
    n: NodeView,
    acl: Seq<AclEntryView>,
    acc: Accessor,
    reqs: Seq<AttrDataView>,
) -> (NodeView, Seq<AclEntryView>, Seq<AttrStatus>)
    decreases reqs.len(),
{
    if reqs.len() == 0 {
        (n, acl, Seq::<AttrStatus>::empty())
    } else {
        let prev = spec_write_all(n, acl, acc, reqs.drop_last());
        let step = spec_write_one(prev.0, prev.1, acc, reqs.last());
        (step.0, step.1, prev.2 + step.2)
    }
}

fn apply_write(node: &mut Node, aclm: &mut AclMgr, ep: u16, cl: u32, at: u32, data: &AttrValue) -> (ok:
    bool)
    requires
        spec_has_attr(old(node)@, ep, cl, at),
    ensures
        ({
            let r = spec_apply_write(old(node)@, old(aclm)@, ep, cl, at, data@);
            final(node)@ == r.0 && final(aclm)@ == r.1 && ok == r.2
        }),
{
    if cl == ACL_CLUSTER_ID && at == ACL_ATTR_ID {
        match data {
            AttrValue::Acl(e) => {
                let entry = e.clone();
                match aclm.add(entry) {
                    Ok(()) => {
                        node.bump_data_ver(ep, cl);
                        true
                    },
                    Err(_) => false,
                }
            },
            AttrValue::U16(_) => false,
        }
    } else {
        match data {
            AttrValue::U16(v) => {
                node.write_value(ep, cl, at, *v);
                true
            },
            AttrValue::Acl(_) => false,
        }
    }
}

fn write_concrete(
    node: &mut Node,
    aclm: &mut AclMgr,
    acc: &Accessor,
    wr: &AttrData,
    out: &mut Vec<AttrStatus>,
)
    requires
        wr@.path.spec_is_concrete(),
    ensures
        ({
            let r = spec_write_concrete(old(node)@, old(aclm)@, *acc, wr@);
            final(node)@ == r.0 && final(aclm)@ == r.1 && final(out)@ == old(out)@ + r.2
        }),
{
    let p = wr.path.path;
    let ep = p.endpoint.unwrap();
    let cl = p.cluster.unwrap();
    let at = p.leaf.unwrap();
    let ei_opt = node.find_endpoint(ep);
    let Some(ei) = ei_opt else {
        out.push(AttrStatus { path: p, status: IMStatusCode::UnsupportedEndpoint, cluster_status: 0 });
        return ;
    };
    proof {
        assert(node@.endpoints[ei as int] == node.endpoints@[ei as int]@);
    }
    let ci_opt = node.endpoints[ei].find_cluster(cl);
    let Some(ci) = ci_opt else {
        out.push(AttrStatus { path: p, status: IMStatusCode::UnsupportedCluster, cluster_status: 0 });
        return ;
    };
    proof {
        assert(node@.endpoints[ei as int].clusters[ci as int] == node.endpoints@[ei as int].clusters@[ci as int]@);
    }
    let ai_opt = node.endpoints[ei].clusters[ci].find_attribute(at);
    let Some(ai) = ai_opt else {
        out.push(AttrStatus { path: p, status: IMStatusCode::UnsupportedAttribute, cluster_status: 0 });
        return ;
    };
    let attr = node.endpoints[ei].clusters[ci].attributes[ai];
    proof {
        assert(spec_has_attr(node@, ep, cl, at));
        assert(spec_attr(node@, ep, cl, at) == attr);
        assert(spec_cluster(node@, ep, cl) == node.endpoints@[ei as int].clusters@[ci as int]@);
    }
    let Some(needed) = attr.write_priv else {
        out.push(AttrStatus { path: p, status: IMStatusCode::UnsupportedWrite, cluster_status: 0 });
        return ;
    };
    let req = AccessReq { fab_idx: acc.fab_idx, endpoint: ep, cluster: cl, privilege: needed };
    if !aclm.allow(acc, &req) {
        out.push(AttrStatus { path: p, status: IMStatusCode::UnsupportedAccess, cluster_status: 0 });
        return ;
    }
    if let Some(expected) = wr.data_ver {
        if expected != node.endpoints[ei].clusters[ci].data_ver {
            out.push(
                AttrStatus { path: p, status: IMStatusCode::DataVersionMismatch, cluster_status: 0 },
            );
            return ;
        }
    }
    let ok = apply_write(node, aclm, ep, cl, at, &wr.data);
    out.push(
        AttrStatus {
            path: p,
            status: if ok {
                IMStatusCode::Success
            } else {
                IMStatusCode::Failure
            },
            cluster_status: 0,
        },
    );
}

fn write_wild_one(
    node: &mut Node,
    aclm: &mut AclMgr,
    acc: &Accessor,
    wr: &AttrData,
    ep: u16,
    cl: u32,
    at: u32,
    out: &mut Vec<AttrStatus>,
)
    ensures
        ({
            let r = spec_write_wild_one(old(node)@, old(aclm)@, *acc, wr@, ep, cl, at);
            final(node)@ == r.0 && final(aclm)@ == r.1 && final(out)@ == old(out)@ + r.2
        }),
{
    let Some(ei) = node.find_endpoint(ep) else {
        return ;
    };
    proof {
        assert(node@.endpoints[ei as int] == node.endpoints@[ei as int]@);
    }
    let Some(ci) = node.endpoints[ei].find_cluster(cl) else {
        return ;
    };
    proof {
        assert(node@.endpoints[ei as int].clusters[ci as int] == node.endpoints@[ei as int].clusters@[ci as int]@);
    }
    let Some(ai) = node.endpoints[ei].clusters[ci].find_attribute(at) else {
        return ;
    };
    let attr = node.endpoints[ei].clusters[ci].attributes[ai];
    proof {
        assert(spec_has_attr(node@, ep, cl, at));
        assert(spec_attr(node@, ep, cl, at) == attr);
        assert(spec_cluster(node@, ep, cl) == node.endpoints@[ei as int].clusters@[ci as int]@);
    }
    let Some(needed) = attr.write_priv else {
        return ;
    };
    let req = AccessReq { fab_idx: acc.fab_idx, endpoint: ep, cluster: cl, privilege: needed };
    if !aclm.allow(acc, &req) {
        return ;
    }
    if let Some(expected) = wr.data_ver {
        if expected != node.endpoints[ei].clusters[ci].data_ver {
            return ;
        }
    }
    let ok = apply_write(node, aclm, ep, cl, at, &wr.data);
    if ok {
        out.push(
            AttrStatus {
                path: GenericPath { endpoint: Some(ep), cluster: Some(cl), leaf: Some(at) },
                status: IMStatusCode::Success,
                cluster_status: 0,
            },
        );
    }
}

fn expand_cluster(ep: u16, cluster: &crate::dm::Cluster, leaf: Option<u32>, out: &mut Vec<(u16, u32, u32)>)
    ensures
        final(out)@ == old(out)@ + spec_expand_attrs(ep, cluster.id, cluster@.attributes, leaf),
{
    let mut k: usize = 0;
    while k < cluster.attributes.len()
        invariant
            k <= cluster@.attributes.len(),
            out@ == old(out)@ + spec_expand_attrs(
                ep,
                cluster.id,
                cluster@.attributes.take(k as int),
                leaf,
            ),
        decreases cluster@.attributes.len() - k,
    {
        proof {
            assert(cluster@.attributes.take(k as int + 1).drop_last() =~= cluster@.attributes.take(
                k as int,
            ));
            assert(cluster@.attributes.take(k as int + 1).last() == cluster@.attributes[k as int]);
        }
        let matches = match leaf {
            None => true,
            Some(l) => cluster.attributes[k].id == l,
        };
        if matches {
            out.push((ep, cluster.id, cluster.attributes[k].id));
        }
        k = k + 1;
    }
    proof {
        assert(cluster@.attributes.take(cluster@.attributes.len() as int) =~= cluster@.attributes);
    }
}

fn expand_ep(ep: &crate::dm::Endpoint, p: &GenericPath, out: &mut Vec<(u16, u32, u32)>)
    ensures
        final(out)@ == old(out)@ + spec_expand_clusters(ep.id, ep@.clusters, *p),
{
    let mut k: usize = 0;
    while k < ep.clusters.len()
        invariant
            k <= ep@.clusters.len(),
            out@ == old(out)@ + spec_expand_clusters(ep.id, ep@.clusters.take(k as int), *p),
        decreases ep@.clusters.len() - k,
    {
        proof {
            assert(ep@.clusters.take(k as int + 1).drop_last() =~= ep@.clusters.take(k as int));
            assert(ep@.clusters.take(k as int + 1).last() == ep@.clusters[k as int]);
            assert(ep@.clusters[k as int] == ep.clusters@[k as int]@);
        }
        let matches = match p.cluster {
            None => true,
            Some(c) => ep.clusters[k].id == c,
        };
        if matches {
            expand_cluster(ep.id, &ep.clusters[k], p.leaf, out);
        }
        k = k + 1;
    }
    proof {
        assert(ep@.clusters.take(ep@.clusters.len() as int) =~= ep@.clusters);
    }
}

fn expand_targets(node: &Node, p: &GenericPath) -> (out: Vec<(u16, u32, u32)>)
    ensures
        out@ == spec_expand_eps(node@.endpoints, *p),
{
    let mut out: Vec<(u16, u32, u32)> = Vec::new();
    let mut k: usize = 0;
    while k < node.endpoints.len()
        invariant
            k <= node@.endpoints.len(),
            out@ == spec_expand_eps(node@.endpoints.take(k as int), *p),
        decreases node@.endpoints.len() - k,
    {
        proof {
            assert(node@.endpoints.take(k as int + 1).drop_last() =~= node@.endpoints.take(
                k as int,
            ));
            assert(node@.endpoints.take(k as int + 1).last() == node@.endpoints[k as int]);
            assert(node@.endpoints[k as int] == node.endpoints@[k as int]@);
        }
        let matches = match p.endpoint {
            None => true,
            Some(e) => node.endpoints[k].id == e,
        };
        if matches {
            expand_ep(&node.endpoints[k], p, &mut out);
        }
        k = k + 1;
    }
    proof {
        assert(node@.endpoints.take(node@.endpoints.len() as int) =~= node@.endpoints);
    }
    out
}

/// Answers a Write request and applies it: elements in listed order, each
/// seeing the tree and the access-control list as the elements before it
/// left them.
///
/// A concrete path yields exactly one status; a wildcard path expands in
/// tree order and yields one `Success` per target actually written,
/// silently skipping denied, read-only and version-mismatched targets. A
/// write to the list attribute of the access-control cluster appends the
/// carried entry to the list and takes effect for the rest of the batch.
pub fn write_reqs(
    node: &mut Node,
    aclm: &mut AclMgr,
    acc: &Accessor,
    reqs: &Vec<AttrData>,
) -> (out: Vec<AttrStatus>)
    ensures
        ({
            let r = spec_write_all(old(node)@, old(aclm)@, *acc, spec_attr_data_views(reqs@));
            final(node)@ == r.0 && final(aclm)@ == r.1 && out@ == r.2
        }),
{
    let ghost n0 = node@;
    let ghost a0 = aclm@;
    let ghost views = spec_attr_data_views(reqs@);
    let mut out: Vec<AttrStatus> = Vec::new();
    let mut i: usize = 0;
    while i < reqs.len()
        invariant
            i <= reqs@.len(),
            views == spec_attr_data_views(reqs@),
            ({
                let r = spec_write_all(n0, a0, *acc, views.take(i as int));
                node@ == r.0 && aclm@ == r.1 && out@ == r.2
            }),
        decreases reqs@.len() - i,
    {
        proof {
            assert(views.take(i as int + 1).drop_last() =~= views.take(i as int));
            assert(views.take(i as int + 1).last() == views[i as int]);
            assert(views[i as int] == reqs@[i as int]@);
        }
        let wr = &reqs[i];
        if wr.path.path.is_concrete() {
            write_concrete(node, aclm, acc, wr, &mut out);
        } else {
            let ghost n1 = node@;
            let ghost a1 = aclm@;
            let ghost out1 = out@;
            let targets = expand_targets(node, &wr.path.path);
            let mut k: usize = 0;
            while k < targets.len()
                invariant
                    k <= targets@.len(),
                    targets@ == spec_expand_eps(n1.endpoints, wr@.path),
                    ({
                        let r = spec_write_fold(n1, a1, *acc, wr@, targets@.take(k as int));
                        node@ == r.0 && aclm@ == r.1 && out@ == out1 + r.2
                    }),
                decreases targets@.len() - k,
            {
                proof {
                    assert(targets@.take(k as int + 1).drop_last() =~= targets@.take(k as int));
                    assert(targets@.take(k as int + 1).last() == targets@[k as int]);
                }
                let t = targets[k];
                write_wild_one(node, aclm, acc, wr, t.0, t.1, t.2, &mut out);
                k = k + 1;
            }
            proof {
                assert(targets@.take(targets@.len() as int) =~= targets@);
            }
        }
        i = i + 1;
    }
    proof {
        assert(views.take(views.len() as int) =~= views);
        assert(views.len() == reqs@.len());
    }
    out
}

} // verus!

verus! {

/// A 32-bit product, wrapping: what the echo effect computes.
pub open spec fn spec_mul_wrap(a: u32, b: u32) -> u32 {
    ((a as nat * b as nat) % 0x1_0000_0000nat) as u32
}

/// What a reached command answers: its echo response, or a bare success
/// status, at the concrete path.
pub open spec fn spec_invoke_resp(ep: u16, cl: u32, cmd: Command, data: u32) -> InvResp {
    match cmd.effect {
        CmdEffect::Echo { multiplier, resp_cmd } => InvResp::Cmd(
            CmdDataResp {
                path: CmdPath {
                    path: GenericPath { endpoint: Some(ep), cluster: Some(cl), leaf: Some(resp_cmd) },
                },
                data: spec_mul_wrap(data, multiplier),
            },
        ),
        CmdEffect::StatusOnly => InvResp::Status(
            CmdStatus {
                path: CmdPath {
                    path: GenericPath { endpoint: Some(ep), cluster: Some(cl), leaf: Some(cmd.id) },
                },
                status: IMStatusCode::Success,
                cluster_status: 0,
            },
        ),
    }
}

/// What one concrete invoke element answers: the matching `Unsupported*`
/// status where the path does not resolve, `UnsupportedAccess` where the
/// list denies operating, else the command's response.
pub open spec fn spec_invoke_concrete(
    n: NodeView,
    acl: Seq<AclEntryView>,
    acc: Accessor,
    cd: CmdData,
) -> Seq<InvResp>
    recommends
        cd.path.path.spec_is_concrete(),
{
    let p = cd.path.path;
    let ep = p.endpoint.unwrap();
    let cl = p.cluster.unwrap();
    let cmd = p.leaf.unwrap();
    if !spec_has_ep(n, ep) {
        seq![
            InvResp::Status(
                CmdStatus { path: cd.path, status: IMStatusCode::UnsupportedEndpoint, cluster_status: 0 },
            ),
        ]
    } else if !spec_has_cluster(n, ep, cl) {
        seq![
            InvResp::Status(
                CmdStatus { path: cd.path, status: IMStatusCode::UnsupportedCluster, cluster_status: 0 },
            ),
        ]
    } else if !spec_has_cmd(n, ep, cl, cmd) {
        seq![
            InvResp::Status(
                CmdStatus { path: cd.path, status: IMStatusCode::UnsupportedCommand, cluster_status: 0 },
            ),
        ]
    } else if !spec_allows(acl, acc, spec_access_req(acc, ep, cl, Privilege::Operate)) {
        seq![
            InvResp::Status(
                CmdStatus { path: cd.path, status: IMStatusCode::UnsupportedAccess, cluster_status: 0 },
            ),
        ]
    } else {
        seq![spec_invoke_resp(ep, cl, spec_cmd(n, ep, cl, cmd), cd.data)]
    }
}

/// A wildcard-endpoint invoke: every endpoint that hosts the named cluster
/// and serves the named command answers, in enumeration order; denied
/// targets are skipped silently, and no endpoint hosting it is no error.
pub open spec fn spec_invoke_wild_eps(
    acl: Seq<AclEntryView>,
    acc: Accessor,
    eps: Seq<EndpointView>,
    cd: CmdData,
) -> Seq<InvResp>
    decreases eps.len(),
{
    if eps.len() == 0 || cd.path.path.cluster is None || cd.path.path.leaf is None {
        Seq::<InvResp>::empty()
    } else {
        let cl = cd.path.path.cluster.unwrap();
        let cmd = cd.path.path.leaf.unwrap();
        let e = eps.last();
        spec_invoke_wild_eps(acl, acc, eps.drop_last(), cd) + (
        if (cd.path.path.endpoint is None || cd.path.path.endpoint == Some(e.id))
            && spec_cluster_idx(e.clusters, cl) < e.clusters.len() && spec_cmd_idx(
            e.clusters[spec_cluster_idx(e.clusters, cl)].commands,
            cmd,
        ) < e.clusters[spec_cluster_idx(e.clusters, cl)].commands.len() {
            if spec_allows(acl, acc, spec_access_req(acc, e.id, cl, Privilege::Operate)) {
                seq![
                    spec_invoke_resp(
                        e.id,
                        cl,
                        e.clusters[spec_cluster_idx(e.clusters, cl)].commands[spec_cmd_idx(
                            e.clusters[spec_cluster_idx(e.clusters, cl)].commands,
                            cmd,
                        )],
                        cd.data,
                    ),
                ]
            } else {
                Seq::<InvResp>::empty()
            }
        } else {
            Seq::<InvResp>::empty()
        })
    }
}

/// What one invoke element answers.
pub open spec fn spec_invoke_one(
    n: NodeView,
    acl: Seq<AclEntryView>,
    acc: Accessor,
    cd: CmdData,
) -> Seq<InvResp> {
    if cd.path.path.spec_is_concrete() {
        spec_invoke_concrete(n, acl, acc, cd)
    } else {
        spec_invoke_wild_eps(acl, acc, n.endpoints, cd)
    }
}

/// What a whole Invoke request answers: the elements' answers in order.
pub open spec fn spec_invoke_all(
    n: NodeView,
    acl: Seq<AclEntryView>,
    acc: Accessor,
    reqs: Seq<CmdData>,
) -> Seq<InvResp>
    decreases reqs.len(),
{
    if reqs.len() == 0 {
        Seq::<InvResp>::empty()
    } else {
        spec_invoke_all(n, acl, acc, reqs.drop_last()) + spec_invoke_one(n, acl, acc, reqs.last())
    }
}

fn invoke_resp(ep: u16, cl: u32, cmd: &Command, data: u32) -> (r: InvResp)
    ensures
        r == spec_invoke_resp(ep, cl, *cmd, data),
{
    match cmd.effect {
        CmdEffect::Echo { multiplier, resp_cmd } => {
            let product = data.wrapping_mul(multiplier);
            proof {
                assert(product == spec_mul_wrap(data, multiplier));
            }
            InvResp::Cmd(
                CmdDataResp {
                    path: CmdPath {
                        path: GenericPath {
                            endpoint: Some(ep),
                            cluster: Some(cl),
                            leaf: Some(resp_cmd),
                        },
                    },
                    data: product,
                },
            )
        },
        CmdEffect::StatusOnly => InvResp::Status(
            CmdStatus {
                path: CmdPath {
                    path: GenericPath { endpoint: Some(ep), cluster: Some(cl), leaf: Some(cmd.id) },
                },
                status: IMStatusCode::Success,
                cluster_status: 0,
            },
        ),
    }
}

fn invoke_concrete(
    node: &Node,
    aclm: &AclMgr,
    acc: &Accessor,
    cd: &CmdData,
    out: &mut Vec<InvResp>,
)
    requires
        cd.path.path.spec_is_concrete(),
    ensures
        final(out)@ == old(out)@ + spec_invoke_concrete(node@, aclm@, *acc, *cd),
{
    let p = cd.path.path;
    let ep = p.endpoint.unwrap();
    let cl = p.cluster.unwrap();
    let cmd = p.leaf.unwrap();
    let Some(ei) = node.find_endpoint(ep) else {
        out.push(
            InvResp::Status(
                CmdStatus { path: cd.path, status: IMStatusCode::UnsupportedEndpoint, cluster_status: 0 },
            ),
        );
        return ;
    };
    proof {
        assert(node@.endpoints[ei as int] == node.endpoints@[ei as int]@);
    }
    let Some(ci) = node.endpoints[ei].find_cluster(cl) else {
        out.push(
            InvResp::Status(
                CmdStatus { path: cd.path, status: IMStatusCode::UnsupportedCluster, cluster_status: 0 },
            ),
        );
        return ;
    };
    proof {
        assert(node@.endpoints[ei as int].clusters[ci as int] == node.endpoints@[ei as int].clusters@[ci as int]@);
    }
    let Some(ki) = node.endpoints[ei].clusters[ci].find_command(cmd) else {
        out.push(
            InvResp::Status(
                CmdStatus { path: cd.path, status: IMStatusCode::UnsupportedCommand, cluster_status: 0 },
            ),
        );
        return ;
    };
    let req = AccessReq {
        fab_idx: acc.fab_idx,
        endpoint: ep,
        cluster: cl,
        privilege: Privilege::Operate,
    };
    if !aclm.allow(acc, &req) {
        out.push(
            InvResp::Status(
                CmdStatus { path: cd.path, status: IMStatusCode::UnsupportedAccess, cluster_status: 0 },
            ),
        );
        return ;
    }
    let command = node.endpoints[ei].clusters[ci].commands[ki];
    proof {
        assert(spec_cmd(node@, ep, cl, cmd) == command);
    }
    let r = invoke_resp(ep, cl, &command, cd.data);
    out.push(r);
}

fn invoke_wild(node: &Node, aclm: &AclMgr, acc: &Accessor, cd: &CmdData, out: &mut Vec<InvResp>)
    ensures
        final(out)@ == old(out)@ + spec_invoke_wild_eps(aclm@, *acc, node@.endpoints, *cd),
{
    let (cl, cmd) = match (cd.path.path.cluster, cd.path.path.leaf) {
        (Some(cl), Some(cmd)) => (cl, cmd),
        _ => {
            return ;
        },
    };
    let mut k: usize = 0;
    while k < node.endpoints.len()
        invariant
            k <= node@.endpoints.len(),
            out@ == old(out)@ + spec_invoke_wild_eps(
                aclm@,
                *acc,
                node@.endpoints.take(k as int),
                *cd,
            ),
        decreases node@.endpoints.len() - k,
    {
        proof {
            assert(node@.endpoints.take(k as int + 1).drop_last() =~= node@.endpoints.take(
                k as int,
            ));
            assert(node@.endpoints.take(k as int + 1).last() == node@.endpoints[k as int]);
            assert(node@.endpoints[k as int] == node.endpoints@[k as int]@);
        }
        let e = &node.endpoints[k];
        let ep_matches = match cd.path.path.endpoint {
            None => true,
            Some(id) => e.id == id,
        };
        if ep_matches {
            if let Some(ci) = e.find_cluster(cl) {
                proof {
                    assert(e@.clusters[ci as int] == e.clusters@[ci as int]@);
                }
                if let Some(ki) = e.clusters[ci].find_command(cmd) {
                    let req = AccessReq {
                        fab_idx: acc.fab_idx,
                        endpoint: e.id,
                        cluster: cl,
                        privilege: Privilege::Operate,
                    };
                    if aclm.allow(acc, &req) {
                        let command = e.clusters[ci].commands[ki];
                        let r = invoke_resp(e.id, cl, &command, cd.data);
                        out.push(r);
                    }
                }
            }
        }
        k = k + 1;
    }
    proof {
        assert(node@.endpoints.take(node@.endpoints.len() as int) =~= node@.endpoints);
    }
}

/// Answers an Invoke request: the elements' answers in order.
///
/// A concrete path yields exactly one element: the command's response, or
/// the matching `Unsupported*` or `UnsupportedAccess` status. A
/// wildcard-endpoint path yields one response per endpoint that hosts the
/// named cluster and command and that the list lets the accessor operate
/// on; reaching no endpoint is not an error.
pub fn invoke_reqs(node: &Node, aclm: &AclMgr, acc: &Accessor, reqs: &Vec<CmdData>) -> (out: Vec<
    InvResp,
>)
    ensures
        out@ == spec_invoke_all(node@, aclm@, *acc, reqs@),
{
    let mut out: Vec<InvResp> = Vec::new();
    let mut i: usize = 0;
    while i < reqs.len()
        invariant
            i <= reqs@.len(),
            out@ == spec_invoke_all(node@, aclm@, *acc, reqs@.take(i as int)),
        decreases reqs@.len() - i,
    {
        proof {
            assert(reqs@.take(i as int + 1).drop_last() =~= reqs@.take(i as int));
            assert(reqs@.take(i as int + 1).last() == reqs@[i as int]);
        }
        let cd = &reqs[i];
        if cd.path.path.is_concrete() {
            invoke_concrete(node, aclm, acc, cd, &mut out);
        } else {
            invoke_wild(node, aclm, acc, cd, &mut out);
        }
        i = i + 1;
    }
    proof {
        assert(reqs@.take(reqs@.len() as int) =~= reqs@);
    }
    out
}

} // verus!

verus! {

/// Every successful write to a cluster — a stored value or an appended
/// access-control entry alike — moves that cluster's data version up by
/// one, wrapping, and so always changes it; and it never changes the shape
/// of the tree.
pub proof fn lemma_apply_write_bumps_data_ver(
    n: NodeView,
    acl: Seq<AclEntryView>,
    ep: u16,
    cl: u32,
    at: u32,
    data: AttrValueView,
)
    requires
        spec_has_attr(n, ep, cl, at),
        spec_apply_write(n, acl, ep, cl, at, data).2,
    ensures
        ({
            let r = spec_apply_write(n, acl, ep, cl, at, data);
            &&& spec_cluster(r.0, ep, cl).data_ver == crate::dm::spec_wrap_inc(
                spec_cluster(n, ep, cl).data_ver,
            )
            &&& spec_cluster(r.0, ep, cl).data_ver != spec_cluster(n, ep, cl).data_ver
            &&& crate::dm::spec_node_shape(n, r.0)
        }),
{
    if cl == ACL_CLUSTER_ID && at == ACL_ATTR_ID {
        crate::dm::lemma_bump_data_ver_lookup(n, ep, cl);
    } else {
        match data {
            AttrValueView::U16(v) => {
                crate::dm::lemma_write_value_lookup(n, ep, cl, at, v);
            },
            AttrValueView::Acl(_) => {},
        }
    }
}

/// A read through a filter that names the cluster's current data version
/// yields no data for that cluster; the same read without any filter yields
/// the value. (The path must resolve and reading must be allowed, else the
/// read answers with a status either way.)
pub proof fn lemma_read_filter_skips(
    n: NodeView,
    acl: Seq<AclEntryView>,
    acc: Accessor,
    p: GenericPath,
    filters: Seq<DataVersionFilter>,
)
    requires
        p.spec_is_concrete(),
        spec_has_attr(n, p.endpoint.unwrap(), p.cluster.unwrap(), p.leaf.unwrap()),
        spec_allows(
            acl,
            acc,
            spec_access_req(
                acc,
                p.endpoint.unwrap(),
                p.cluster.unwrap(),
                spec_attr(n, p.endpoint.unwrap(), p.cluster.unwrap(), p.leaf.unwrap()).read_priv,
            ),
        ),
        spec_filter_matches(
            filters,
            p.endpoint.unwrap(),
            p.cluster.unwrap(),
            spec_cluster(n, p.endpoint.unwrap(), p.cluster.unwrap()).data_ver,
        ),
    ensures
        spec_read_concrete(n, acl, acc, p, filters) == Seq::<AttrResp>::empty(),
        spec_read_concrete(n, acl, acc, p, Seq::<DataVersionFilter>::empty()) == seq![
            AttrResp::Data(
                AttrDataResp {
                    data_ver: spec_cluster(n, p.endpoint.unwrap(), p.cluster.unwrap()).data_ver,
                    path: GenericPath {
                        endpoint: Some(p.endpoint.unwrap()),
                        cluster: Some(p.cluster.unwrap()),
                        leaf: Some(p.leaf.unwrap()),
                    },
                    data: spec_attr(
                        n,
                        p.endpoint.unwrap(),
                        p.cluster.unwrap(),
                        p.leaf.unwrap(),
                    ).value,
                },
            ),
        ],
{
    let ep = p.endpoint.unwrap();
    let cl = p.cluster.unwrap();
    let at = p.leaf.unwrap();
    crate::dm::lemma_ep_idx(n.endpoints, ep);
    lemma_cluster_id_of_resolved(n, ep, cl);
    lemma_attr_id_of_resolved(n, ep, cl, at);
    assert(spec_read_concrete(n, acl, acc, p, filters) =~= Seq::<AttrResp>::empty());
    assert(spec_read_concrete(n, acl, acc, p, Seq::<DataVersionFilter>::empty()) =~= seq![
        AttrResp::Data(
            AttrDataResp {
                data_ver: spec_cluster(n, ep, cl).data_ver,
                path: GenericPath { endpoint: Some(ep), cluster: Some(cl), leaf: Some(at) },
                data: spec_attr(n, ep, cl, at).value,
            },
        ),
    ]);
}

/// The cluster a resolving path reaches carries the id the path names, and
/// its resolved attribute carries the leaf id.
pub proof fn lemma_cluster_id_of_resolved(n: NodeView, ep: u16, cl: u32)
    requires
        spec_has_cluster(n, ep, cl),
    ensures
        spec_cluster(n, ep, cl).id == cl,
{
    crate::dm::lemma_ep_idx(n.endpoints, ep);
    crate::dm::lemma_cluster_idx(crate::dm::spec_ep(n, ep).clusters, cl);
}

/// The attribute a resolving path reaches carries the leaf id.
pub proof fn lemma_attr_id_of_resolved(n: NodeView, ep: u16, cl: u32, at: u32)
    requires
        spec_has_attr(n, ep, cl, at),
    ensures
        spec_attr(n, ep, cl, at).id == at,
{
    crate::dm::lemma_ep_idx(n.endpoints, ep);
    crate::dm::lemma_cluster_idx(crate::dm::spec_ep(n, ep).clusters, cl);
    crate::dm::lemma_attr_idx(spec_cluster(n, ep, cl).attributes, at);
}

/// Writing the same value twice through a concrete path — anywhere but the
/// access-control list attribute, with no data version demanded — answers
/// `Success` both times, leaves the access-control list alone, stores the
/// value, and moves the cluster's data version up by one each time.
pub proof fn lemma_write_twice(
    n: NodeView,
    acl: Seq<AclEntryView>,
    acc: Accessor,
    wr: AttrDataView,
    v: u16,
)
    requires
        wr.path.spec_is_concrete(),
        wr.data_ver is None,
        wr.data == AttrValueView::U16(v),
        !(wr.path.cluster.unwrap() == ACL_CLUSTER_ID && wr.path.leaf.unwrap() == ACL_ATTR_ID),
        spec_has_attr(n, wr.path.endpoint.unwrap(), wr.path.cluster.unwrap(), wr.path.leaf.unwrap()),
        spec_attr(
            n,
            wr.path.endpoint.unwrap(),
            wr.path.cluster.unwrap(),
            wr.path.leaf.unwrap(),
        ).write_priv is Some,
        spec_allows(
            acl,
            acc,
            spec_access_req(
                acc,
                wr.path.endpoint.unwrap(),
                wr.path.cluster.unwrap(),
                spec_attr(
                    n,
                    wr.path.endpoint.unwrap(),
                    wr.path.cluster.unwrap(),
                    wr.path.leaf.unwrap(),
                ).write_priv.unwrap(),
            ),
        ),
    ensures
        ({
            let ep = wr.path.endpoint.unwrap();
            let cl = wr.path.cluster.unwrap();
            let at = wr.path.leaf.unwrap();
            let success = AttrStatus {
                path: wr.path,
                status: IMStatusCode::Success,
                cluster_status: 0,
            };
            let r1 = spec_write_concrete(n, acl, acc, wr);
            let r2 = spec_write_concrete(r1.0, r1.1, acc, wr);
            &&& r1.2 == seq![success]
            &&& r2.2 == seq![success]
            &&& r1.1 == acl
            &&& r2.1 == acl
            &&& spec_attr(r2.0, ep, cl, at).value == v
            &&& spec_cluster(r1.0, ep, cl).data_ver == crate::dm::spec_wrap_inc(
                spec_cluster(n, ep, cl).data_ver,
            )
            &&& spec_cluster(r2.0, ep, cl).data_ver == crate::dm::spec_wrap_inc(
                spec_cluster(r1.0, ep, cl).data_ver,
            )
        }),
{
    let ep = wr.path.endpoint.unwrap();
    let cl = wr.path.cluster.unwrap();
    let at = wr.path.leaf.unwrap();
    let r1 = spec_write_concrete(n, acl, acc, wr);
    crate::dm::lemma_write_value_lookup(n, ep, cl, at, v);
    assert(r1.0 == spec_write_value(n, ep, cl, at, v));
    assert(r1.2 =~= seq![
        AttrStatus { path: wr.path, status: IMStatusCode::Success, cluster_status: 0 },
    ]);
    crate::dm::lemma_write_value_shape(n, ep, cl, at, v);
    crate::dm::lemma_shape_lookup(n, r1.0, ep, cl, at);
    assert(spec_attr(r1.0, ep, cl, at).write_priv == spec_attr(n, ep, cl, at).write_priv);
    let r2 = spec_write_concrete(r1.0, r1.1, acc, wr);
    crate::dm::lemma_write_value_lookup(r1.0, ep, cl, at, v);
    assert(r2.0 == spec_write_value(r1.0, ep, cl, at, v));
    assert(r2.2 =~= seq![
        AttrStatus { path: wr.path, status: IMStatusCode::Success, cluster_status: 0 },
    ]);
}

} // verus!
