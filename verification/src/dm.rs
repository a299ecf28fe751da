//! The data model tree: endpoints, clusters, attributes and commands.
//!
//! A node is a list of endpoints; an endpoint hosts clusters; a cluster
//! carries attributes (each with a value and the privileges its access
//! needs) and commands, and a data version that moves up by one on every
//! successful write to the cluster. Identifiers are unique on each level;
//! every lookup resolves to the first — hence only — match.

use vstd::prelude::*;

use crate::acl::Privilege;

verus! {

/// One attribute: a value plus the privileges reading and writing need.
/// `write_priv == None` marks a read-only attribute.
#[derive(Clone, Copy, Debug, PartialEq, Eq)]
pub struct Attribute {
    pub id: u32,
    pub value: u16,
    pub read_priv: Privilege,
    pub write_priv: Option<Privilege>,
}

/// What invoking a command does.
///
/// `Echo` answers with its own response command and the request payload
/// times a fixed multiplier (truncated to 32 bits); `StatusOnly` answers
/// with a plain success status.
#[derive(Clone, Copy, Debug, PartialEq, Eq)]
pub enum CmdEffect {
    Echo { multiplier: u32, resp_cmd: u32 },
    StatusOnly,
}

/// One command a cluster serves.
#[derive(Clone, Copy, Debug, PartialEq, Eq)]
pub struct Command {
    pub id: u32,
    pub effect: CmdEffect,
}

/// One cluster instance on an endpoint.
#[derive(Clone, Debug)]
pub struct Cluster {
    pub id: u32,
    pub data_ver: u32,
    pub attributes: Vec<Attribute>,
    pub commands: Vec<Command>,
}

/// One endpoint of the node.
#[derive(Clone, Debug)]
pub struct Endpoint {
    pub id: u16,
    pub clusters: Vec<Cluster>,
}

/// The whole tree.
#[derive(Clone, Debug)]
pub struct Node {
    pub endpoints: Vec<Endpoint>,
}

/// The mathematical shape of a cluster.
#[verifier::ext_equal]
pub struct ClusterView {
    pub id: u32,
    pub data_ver: u32,
    pub attributes: Seq<Attribute>,
    pub commands: Seq<Command>,
}

/// The mathematical shape of an endpoint.
#[verifier::ext_equal]
pub struct EndpointView {
    pub id: u16,
    pub clusters: Seq<ClusterView>,
}

/// The mathematical shape of the tree.
#[verifier::ext_equal]
pub struct NodeView {
    pub endpoints: Seq<EndpointView>,
}

impl View for Cluster {
    type V = ClusterView;

    open spec fn view(&self) -> ClusterView {
        ClusterView {
            id: self.id,
            data_ver: self.data_ver,
            attributes: self.attributes@,
            commands: self.commands@,
        }
    }
}

impl View for Endpoint {
    type V = EndpointView;

    open spec fn view(&self) -> EndpointView {
        EndpointView { id: self.id, clusters: self.clusters@.map(|i: int, c: Cluster| c@) }
    }
}

impl View for Node {
    type V = NodeView;

    open spec fn view(&self) -> NodeView {
        NodeView { endpoints: self.endpoints@.map(|i: int, e: Endpoint| e@) }
    }
}

/// Index of the first attribute with this id, or the length if none has it.
pub open spec fn spec_attr_idx(attrs: Seq<Attribute>, id: u32) -> int
    decreases attrs.len(),
{
    if attrs.len() == 0 {
        0
    } else if attrs[0].id == id {
        0
    } else {
        1 + spec_attr_idx(attrs.drop_first(), id)
    }
}

/// Index of the first command with this id, or the length if none has it.
pub open spec fn spec_cmd_idx(cmds: Seq<Command>, id: u32) -> int
    decreases cmds.len(),
{
    if cmds.len() == 0 {
        0
    } else if cmds[0].id == id {
        0
    } else {
        1 + spec_cmd_idx(cmds.drop_first(), id)
    }
}

/// Index of the first cluster with this id, or the length if none has it.
pub open spec fn spec_cluster_idx(cls: Seq<ClusterView>, id: u32) -> int
    decreases cls.len(),
{
    if cls.len() == 0 {
        0
    } else if cls[0].id == id {
        0
    } else {
        1 + spec_cluster_idx(cls.drop_first(), id)
    }
}

/// Index of the first endpoint with this id, or the length if none has it.
pub open spec fn spec_ep_idx(eps: Seq<EndpointView>, id: u16) -> int
    decreases eps.len(),
{
    if eps.len() == 0 {
        0
    } else if eps[0].id == id {
        0
    } else {
        1 + spec_ep_idx(eps.drop_first(), id)
    }
}

/// The first-index functions point at the first match and at nothing else.
pub proof fn lemma_attr_idx(attrs: Seq<Attribute>, id: u32)
    ensures
        0 <= spec_attr_idx(attrs, id) <= attrs.len(),
        spec_attr_idx(attrs, id) < attrs.len() ==> attrs[spec_attr_idx(attrs, id)].id == id,
        forall|j: int| 0 <= j < spec_attr_idx(attrs, id) ==> attrs[j].id != id,
    decreases attrs.len(),
{
    if attrs.len() > 0 && attrs[0].id != id {
        lemma_attr_idx(attrs.drop_first(), id);
        assert forall|j: int| 0 <= j < spec_attr_idx(attrs, id) implies attrs[j].id != id by {
            if j > 0 {
                assert(attrs.drop_first()[j - 1] == attrs[j]);
            }
        }
    }
}

pub proof fn lemma_cmd_idx(cmds: Seq<Command>, id: u32)
    ensures
        0 <= spec_cmd_idx(cmds, id) <= cmds.len(),
        spec_cmd_idx(cmds, id) < cmds.len() ==> cmds[spec_cmd_idx(cmds, id)].id == id,
        forall|j: int| 0 <= j < spec_cmd_idx(cmds, id) ==> cmds[j].id != id,
    decreases cmds.len(),
{
    if cmds.len() > 0 && cmds[0].id != id {
        lemma_cmd_idx(cmds.drop_first(), id);
        assert forall|j: int| 0 <= j < spec_cmd_idx(cmds, id) implies cmds[j].id != id by {
            if j > 0 {
                assert(cmds.drop_first()[j - 1] == cmds[j]);
            }
        }
    }
}

pub proof fn lemma_cluster_idx(cls: Seq<ClusterView>, id: u32)
    ensures
        0 <= spec_cluster_idx(cls, id) <= cls.len(),
        spec_cluster_idx(cls, id) < cls.len() ==> cls[spec_cluster_idx(cls, id)].id == id,
        forall|j: int| 0 <= j < spec_cluster_idx(cls, id) ==> cls[j].id != id,
    decreases cls.len(),
{
    if cls.len() > 0 && cls[0].id != id {
        lemma_cluster_idx(cls.drop_first(), id);
        assert forall|j: int| 0 <= j < spec_cluster_idx(cls, id) implies cls[j].id != id by {
            if j > 0 {
                assert(cls.drop_first()[j - 1] == cls[j]);
            }
        }
    }
}

pub proof fn lemma_ep_idx(eps: Seq<EndpointView>, id: u16)
    ensures
        0 <= spec_ep_idx(eps, id) <= eps.len(),
        spec_ep_idx(eps, id) < eps.len() ==> eps[spec_ep_idx(eps, id)].id == id,
        forall|j: int| 0 <= j < spec_ep_idx(eps, id) ==> eps[j].id != id,
    decreases eps.len(),
{
    if eps.len() > 0 && eps[0].id != id {
        lemma_ep_idx(eps.drop_first(), id);
        assert forall|j: int| 0 <= j < spec_ep_idx(eps, id) implies eps[j].id != id by {
            if j > 0 {
                assert(eps.drop_first()[j - 1] == eps[j]);
            }
        }
    }
}

/// Whether the node has an endpoint with this id.
pub open spec fn spec_has_ep(n: NodeView, ep: u16) -> bool {
    spec_ep_idx(n.endpoints, ep) < n.endpoints.len()
}

/// The endpoint with this id (meaningful only under [`spec_has_ep`]).
pub open spec fn spec_ep(n: NodeView, ep: u16) -> EndpointView {
    n.endpoints[spec_ep_idx(n.endpoints, ep)]
}

/// Whether that endpoint hosts a cluster with this id.
pub open spec fn spec_has_cluster(n: NodeView, ep: u16, cl: u32) -> bool {
    &&& spec_has_ep(n, ep)
    &&& spec_cluster_idx(spec_ep(n, ep).clusters, cl) < spec_ep(n, ep).clusters.len()
}

/// The cluster at this endpoint (meaningful only under [`spec_has_cluster`]).
pub open spec fn spec_cluster(n: NodeView, ep: u16, cl: u32) -> ClusterView {
    spec_ep(n, ep).clusters[spec_cluster_idx(spec_ep(n, ep).clusters, cl)]
}

/// Whether that cluster carries an attribute with this id.
pub open spec fn spec_has_attr(n: NodeView, ep: u16, cl: u32, at: u32) -> bool {
    &&& spec_has_cluster(n, ep, cl)
    &&& spec_attr_idx(spec_cluster(n, ep, cl).attributes, at) < spec_cluster(n, ep, cl).attributes.len()
}

/// The attribute itself (meaningful only under [`spec_has_attr`]).
pub open spec fn spec_attr(n: NodeView, ep: u16, cl: u32, at: u32) -> Attribute {
    spec_cluster(n, ep, cl).attributes[spec_attr_idx(spec_cluster(n, ep, cl).attributes, at)]
}

/// Whether that cluster serves a command with this id.
pub open spec fn spec_has_cmd(n: NodeView, ep: u16, cl: u32, cmd: u32) -> bool {
    &&& spec_has_cluster(n, ep, cl)
    &&& spec_cmd_idx(spec_cluster(n, ep, cl).commands, cmd) < spec_cluster(n, ep, cl).commands.len()
}

/// The command itself (meaningful only under [`spec_has_cmd`]).
pub open spec fn spec_cmd(n: NodeView, ep: u16, cl: u32, cmd: u32) -> Command {
    spec_cluster(n, ep, cl).commands[spec_cmd_idx(spec_cluster(n, ep, cl).commands, cmd)]
}

/// The data version after one more successful write: up by one, wrapping
/// at the top of the 32-bit range.
pub open spec fn spec_wrap_inc(v: u32) -> u32 {
    if v == 0xFFFF_FFFFu32 {
        0u32
    } else {
        (v + 1) as u32
    }
}

/// The tree after a write of `value` to that attribute: the attribute holds
/// the new value and the owning cluster's data version moved up by one
/// (wrapping); everything else is as it was.
pub open spec fn spec_write_value(n: NodeView, ep: u16, cl: u32, at: u32, value: u16) -> NodeView {
    let ei = spec_ep_idx(n.endpoints, ep);
    let e = n.endpoints[ei];
    let ci = spec_cluster_idx(e.clusters, cl);
    let c = e.clusters[ci];
    let ai = spec_attr_idx(c.attributes, at);
    let a = c.attributes[ai];
    NodeView {
        endpoints: n.endpoints.update(
            ei,
            EndpointView {
                id: e.id,
                clusters: e.clusters.update(
                    ci,
                    ClusterView {
                        id: c.id,
                        data_ver: spec_wrap_inc(c.data_ver),
                        attributes: c.attributes.update(
                            ai,
                            Attribute {
                                id: a.id,
                                value,
                                read_priv: a.read_priv,
                                write_priv: a.write_priv,
                            },
                        ),
                        commands: c.commands,
                    },
                ),
            },
        ),
    }
}

/// The tree after a bare bump of that cluster's data version (a successful
/// write that the cluster absorbs outside the tree, such as one to the
/// access-control list).
pub open spec fn spec_bump_data_ver(n: NodeView, ep: u16, cl: u32) -> NodeView {
    let ei = spec_ep_idx(n.endpoints, ep);
    let e = n.endpoints[ei];
    let ci = spec_cluster_idx(e.clusters, cl);
    let c = e.clusters[ci];
    NodeView {
        endpoints: n.endpoints.update(
            ei,
            EndpointView {
                id: e.id,
                clusters: e.clusters.update(
                    ci,
                    ClusterView {
                        id: c.id,
                        data_ver: spec_wrap_inc(c.data_ver),
                        attributes: c.attributes,
                        commands: c.commands,
                    },
                ),
            },
        ),
    }
}

impl Node {
    /// A tree with no endpoints.
    pub fn new() -> (n: Node)
        ensures
            n@.endpoints =~= Seq::<EndpointView>::empty(),
    {
        let n = Node { endpoints: Vec::new() };
        proof {
            assert(n@.endpoints =~= Seq::<EndpointView>::empty());
        }
        n
    }

    /// Index of the endpoint with this id, if the node has one.
    pub fn find_endpoint(&self, ep: u16) -> (r: Option<usize>)
        ensures
            match r {
                Some(i) => i == spec_ep_idx(self@.endpoints, ep) && i < self@.endpoints.len()
                    && spec_has_ep(self@, ep) && self@.endpoints[i as int].id == ep,
                None => !spec_has_ep(self@, ep),
            },
    {
        proof {
            lemma_ep_idx(self@.endpoints, ep);
        }
        let mut i: usize = 0;
        while i < self.endpoints.len()
            invariant
                i <= self@.endpoints.len(),
                forall|j: int| 0 <= j < i ==> self@.endpoints[j].id != ep,
            decreases self@.endpoints.len() - i,
        {
            if self.endpoints[i].id == ep {
                proof {
                    assert(self@.endpoints[i as int].id == ep);
                }
                return Some(i);
            }
            proof {
                assert(self@.endpoints[i as int].id != ep);
            }
            i = i + 1;
        }
        None
    }
}

impl Endpoint {
    /// Index of the cluster with this id, if the endpoint hosts one.
    pub fn find_cluster(&self, cl: u32) -> (r: Option<usize>)
        ensures
            match r {
                Some(i) => i == spec_cluster_idx(self@.clusters, cl) && i < self@.clusters.len()
                    && self@.clusters[i as int].id == cl,
                None => spec_cluster_idx(self@.clusters, cl) == self@.clusters.len(),
            },
    {
        proof {
            lemma_cluster_idx(self@.clusters, cl);
        }
        let mut i: usize = 0;
        while i < self.clusters.len()
            invariant
                i <= self@.clusters.len(),
                forall|j: int| 0 <= j < i ==> self@.clusters[j].id != cl,
            decreases self@.clusters.len() - i,
        {
            if self.clusters[i].id == cl {
                proof {
                    assert(self@.clusters[i as int].id == cl);
                }
                return Some(i);
            }
            proof {
                assert(self@.clusters[i as int].id != cl);
            }
            i = i + 1;
        }
        None
    }
}

impl Cluster {
    /// A fresh cluster with no attributes and no commands.
    pub fn new(id: u32, data_ver: u32) -> (c: Cluster)
        ensures
            c@ == (ClusterView {
                id,
                data_ver,
                attributes: Seq::<Attribute>::empty(),
                commands: Seq::<Command>::empty(),
            }),
    {
        let c = Cluster { id, data_ver, attributes: Vec::new(), commands: Vec::new() };
        proof {
            assert(c@.attributes =~= Seq::<Attribute>::empty());
            assert(c@.commands =~= Seq::<Command>::empty());
        }
        c
    }

    /// Index of the attribute with this id, if the cluster carries one.
    pub fn find_attribute(&self, at: u32) -> (r: Option<usize>)
        ensures
            match r {
                Some(i) => i == spec_attr_idx(self@.attributes, at) && i < self@.attributes.len()
                    && self@.attributes[i as int].id == at,
                None => spec_attr_idx(self@.attributes, at) == self@.attributes.len(),
            },
    {
        proof {
            lemma_attr_idx(self@.attributes, at);
        }
        let mut i: usize = 0;
        while i < self.attributes.len()
            invariant
                i <= self@.attributes.len(),
                forall|j: int| 0 <= j < i ==> self@.attributes[j].id != at,
            decreases self@.attributes.len() - i,
        {
            if self.attributes[i].id == at {
                return Some(i);
            }
            i = i + 1;
        }
        None
    }

    /// Index of the command with this id, if the cluster serves one.
    pub fn find_command(&self, cmd: u32) -> (r: Option<usize>)
        ensures
            match r {
                Some(i) => i == spec_cmd_idx(self@.commands, cmd) && i < self@.commands.len()
                    && self@.commands[i as int].id == cmd,
                None => spec_cmd_idx(self@.commands, cmd) == self@.commands.len(),
            },
    {
        proof {
            lemma_cmd_idx(self@.commands, cmd);
        }
        let mut i: usize = 0;
        while i < self.commands.len()
            invariant
                i <= self@.commands.len(),
                forall|j: int| 0 <= j < i ==> self@.commands[j].id != cmd,
            decreases self@.commands.len() - i,
        {
            if self.commands[i].id == cmd {
                return Some(i);
            }
            i = i + 1;
        }
        None
    }
}

impl Node {
    /// The value of that attribute, if the path resolves.
    pub fn attr_value(&self, ep: u16, cl: u32, at: u32) -> (r: Option<u16>)
        ensures
            match r {
                Some(v) => spec_has_attr(self@, ep, cl, at) && v == spec_attr(self@, ep, cl, at).value,
                None => !spec_has_attr(self@, ep, cl, at),
            },
    {
        let Some(ei) = self.find_endpoint(ep) else { return None };
        let Some(ci) = self.endpoints[ei].find_cluster(cl) else { return None };
        let Some(ai) = self.endpoints[ei].clusters[ci].find_attribute(at) else { return None };
        proof {
            assert(self@.endpoints[ei as int] == self.endpoints@[ei as int]@);
            assert(self@.endpoints[ei as int].clusters[ci as int] == self.endpoints@[ei as int].clusters@[ci as int]@);
        }
        Some(self.endpoints[ei].clusters[ci].attributes[ai].value)
    }

    /// The data version of that cluster, if the path resolves.
    pub fn cluster_data_ver(&self, ep: u16, cl: u32) -> (r: Option<u32>)
        ensures
            match r {
                Some(v) => spec_has_cluster(self@, ep, cl) && v == spec_cluster(self@, ep, cl).data_ver,
                None => !spec_has_cluster(self@, ep, cl),
            },
    {
        let Some(ei) = self.find_endpoint(ep) else { return None };
        let Some(ci) = self.endpoints[ei].find_cluster(cl) else { return None };
        proof {
            assert(self@.endpoints[ei as int] == self.endpoints@[ei as int]@);
            assert(self@.endpoints[ei as int].clusters[ci as int] == self.endpoints@[ei as int].clusters@[ci as int]@);
        }
        Some(self.endpoints[ei].clusters[ci].data_ver)
    }
}

} // verus!

verus! {

impl Node {
    /// Writes `value` to that attribute and moves the owning cluster's data
    /// version up by one (wrapping).
    pub fn write_value(&mut self, ep: u16, cl: u32, at: u32, value: u16)
        requires
            spec_has_attr(old(self)@, ep, cl, at),
        ensures
            final(self)@ == spec_write_value(old(self)@, ep, cl, at, value),
    {
        let ei = self.find_endpoint(ep).unwrap();
        proof {
            assert(self@.endpoints[ei as int] == self.endpoints@[ei as int]@);
        }
        let ci = self.endpoints[ei].find_cluster(cl).unwrap();
        proof {
            assert(self@.endpoints[ei as int].clusters[ci as int] == self.endpoints@[ei as int].clusters@[ci as int]@);
        }
        let ai = self.endpoints[ei].clusters[ci].find_attribute(at).unwrap();
        let cluster = &mut self.endpoints[ei].clusters[ci];
        let attr = &mut cluster.attributes[ai];
        attr.value = value;
        cluster.data_ver = cluster.data_ver.wrapping_add(1);
        proof {
            assert(self@ =~~= spec_write_value(old(self)@, ep, cl, at, value));
        }
    }

    /// Moves that cluster's data version up by one (wrapping), for a
    /// successful write the cluster absorbs outside the tree.
    pub fn bump_data_ver(&mut self, ep: u16, cl: u32)
        requires
            spec_has_cluster(old(self)@, ep, cl),
        ensures
            final(self)@ == spec_bump_data_ver(old(self)@, ep, cl),
    {
        let ei = self.find_endpoint(ep).unwrap();
        proof {
            assert(self@.endpoints[ei as int] == self.endpoints@[ei as int]@);
        }
        let ci = self.endpoints[ei].find_cluster(cl).unwrap();
        proof {
            assert(self@.endpoints[ei as int].clusters[ci as int] == self.endpoints@[ei as int].clusters@[ci as int]@);
        }
        let cluster = &mut self.endpoints[ei].clusters[ci];
        cluster.data_ver = cluster.data_ver.wrapping_add(1);
        proof {
            assert(self@ =~~= spec_bump_data_ver(old(self)@, ep, cl));
        }
    }
}

} // verus!

verus! {

/// Two attributes agree in everything but possibly their value.
pub open spec fn spec_attr_shape(a: Attribute, b: Attribute) -> bool {
    a.id == b.id && a.read_priv == b.read_priv && a.write_priv == b.write_priv
}

/// Two clusters agree in everything but possibly their data version and
/// their attributes' values.
pub open spec fn spec_cluster_shape(a: ClusterView, b: ClusterView) -> bool {
    &&& a.id == b.id
    &&& a.commands == b.commands
    &&& a.attributes.len() == b.attributes.len()
    &&& forall|k: int|
        0 <= k < a.attributes.len() ==> spec_attr_shape(
            #[trigger] a.attributes[k],
            b.attributes[k],
        )
}

/// Two endpoints with the same id hosting shape-equal clusters.
pub open spec fn spec_ep_shape(a: EndpointView, b: EndpointView) -> bool {
    &&& a.id == b.id
    &&& a.clusters.len() == b.clusters.len()
    &&& forall|j: int|
        0 <= j < a.clusters.len() ==> spec_cluster_shape(#[trigger] a.clusters[j], b.clusters[j])
}

/// Two trees that differ at most in attribute values and data versions.
/// Writes preserve this relation, so paths resolve the same way before and
/// after any batch of writes.
pub open spec fn spec_node_shape(a: NodeView, b: NodeView) -> bool {
    &&& a.endpoints.len() == b.endpoints.len()
    &&& forall|i: int|
        0 <= i < a.endpoints.len() ==> spec_ep_shape(#[trigger] a.endpoints[i], b.endpoints[i])
}

/// Sequences of endpoints that agree on ids resolve ids to the same index.
pub proof fn lemma_ep_idx_same_ids(a: Seq<EndpointView>, b: Seq<EndpointView>, id: u16)
    requires
        a.len() == b.len(),
        forall|i: int| 0 <= i < a.len() ==> #[trigger] a[i].id == b[i].id,
    ensures
        spec_ep_idx(a, id) == spec_ep_idx(b, id),
    decreases a.len(),
{
    if a.len() > 0 {
        assert(a.drop_first().len() == b.drop_first().len());
        assert forall|i: int| 0 <= i < a.drop_first().len() implies #[trigger] a.drop_first()[i].id
            == b.drop_first()[i].id by {
            assert(a[i + 1].id == b[i + 1].id);
        }
        lemma_ep_idx_same_ids(a.drop_first(), b.drop_first(), id);
    }
}

/// Sequences of clusters that agree on ids resolve ids to the same index.
pub proof fn lemma_cluster_idx_same_ids(a: Seq<ClusterView>, b: Seq<ClusterView>, id: u32)
    requires
        a.len() == b.len(),
        forall|i: int| 0 <= i < a.len() ==> #[trigger] a[i].id == b[i].id,
    ensures
        spec_cluster_idx(a, id) == spec_cluster_idx(b, id),
    decreases a.len(),
{
    if a.len() > 0 {
        assert forall|i: int| 0 <= i < a.drop_first().len() implies #[trigger] a.drop_first()[i].id
            == b.drop_first()[i].id by {
            assert(a[i + 1].id == b[i + 1].id);
        }
        lemma_cluster_idx_same_ids(a.drop_first(), b.drop_first(), id);
    }
}

/// Sequences of attributes that agree on ids resolve ids to the same index.
pub proof fn lemma_attr_idx_same_ids(a: Seq<Attribute>, b: Seq<Attribute>, id: u32)
    requires
        a.len() == b.len(),
        forall|i: int| 0 <= i < a.len() ==> #[trigger] a[i].id == b[i].id,
    ensures
        spec_attr_idx(a, id) == spec_attr_idx(b, id),
    decreases a.len(),
{
    if a.len() > 0 {
        assert forall|i: int| 0 <= i < a.drop_first().len() implies #[trigger] a.drop_first()[i].id
            == b.drop_first()[i].id by {
            assert(a[i + 1].id == b[i + 1].id);
        }
        lemma_attr_idx_same_ids(a.drop_first(), b.drop_first(), id);
    }
}

/// Shape-equal trees resolve every path alike: same indices, same
/// existence, and the resolved attribute differs at most in its value.
pub proof fn lemma_shape_lookup(a: NodeView, b: NodeView, ep: u16, cl: u32, at: u32)
    requires
        spec_node_shape(a, b),
    ensures
        spec_ep_idx(a.endpoints, ep) == spec_ep_idx(b.endpoints, ep),
        spec_has_ep(a, ep) == spec_has_ep(b, ep),
        spec_has_ep(a, ep) ==> spec_cluster_idx(spec_ep(a, ep).clusters, cl) == spec_cluster_idx(
            spec_ep(b, ep).clusters,
            cl,
        ),
        spec_has_cluster(a, ep, cl) == spec_has_cluster(b, ep, cl),
        spec_has_cluster(a, ep, cl) ==> spec_cluster(a, ep, cl).id == spec_cluster(b, ep, cl).id
            && spec_cluster(a, ep, cl).commands == spec_cluster(b, ep, cl).commands && spec_attr_idx(
            spec_cluster(a, ep, cl).attributes,
            at,
        ) == spec_attr_idx(spec_cluster(b, ep, cl).attributes, at),
        spec_has_attr(a, ep, cl, at) == spec_has_attr(b, ep, cl, at),
        spec_has_attr(a, ep, cl, at) ==> spec_attr_shape(spec_attr(a, ep, cl, at), spec_attr(b, ep, cl, at)),
    decreases a.endpoints.len(),
{
    assert forall|i: int| 0 <= i < a.endpoints.len() implies #[trigger] a.endpoints[i].id
        == b.endpoints[i].id by {
        assert(spec_ep_shape(a.endpoints[i], b.endpoints[i]));
    }
    lemma_ep_idx_same_ids(a.endpoints, b.endpoints, ep);
    lemma_ep_idx(a.endpoints, ep);
    if spec_has_ep(a, ep) {
        let ea = spec_ep(a, ep);
        let eb = spec_ep(b, ep);
        assert(spec_ep_shape(ea, eb));
        assert forall|j: int| 0 <= j < ea.clusters.len() implies #[trigger] ea.clusters[j].id
            == eb.clusters[j].id by {
            assert(spec_cluster_shape(ea.clusters[j], eb.clusters[j]));
        }
        lemma_cluster_idx_same_ids(ea.clusters, eb.clusters, cl);
        lemma_cluster_idx(ea.clusters, cl);
        if spec_has_cluster(a, ep, cl) {
            let ca = spec_cluster(a, ep, cl);
            let cb = spec_cluster(b, ep, cl);
            assert(spec_cluster_shape(ca, cb));
            assert forall|k: int| 0 <= k < ca.attributes.len() implies #[trigger] ca.attributes[k].id
                == cb.attributes[k].id by {
                assert(spec_attr_shape(ca.attributes[k], cb.attributes[k]));
            }
            lemma_attr_idx_same_ids(ca.attributes, cb.attributes, at);
            lemma_attr_idx(ca.attributes, at);
        }
    }
}

/// Shape equality is reflexive on each level.
pub proof fn lemma_cluster_shape_refl(c: ClusterView)
    ensures
        spec_cluster_shape(c, c),
{
}

pub proof fn lemma_ep_shape_refl(e: EndpointView)
    ensures
        spec_ep_shape(e, e),
{
    assert forall|j: int| 0 <= j < e.clusters.len() implies spec_cluster_shape(
        #[trigger] e.clusters[j],
        e.clusters[j],
    ) by {
        lemma_cluster_shape_refl(e.clusters[j]);
    }
}

/// A value write leaves the tree's shape as it was.
pub proof fn lemma_write_value_shape(n: NodeView, ep: u16, cl: u32, at: u32, value: u16)
    requires
        spec_has_attr(n, ep, cl, at),
    ensures
        spec_node_shape(n, spec_write_value(n, ep, cl, at, value)),
{
    let r = spec_write_value(n, ep, cl, at, value);
    let ei = spec_ep_idx(n.endpoints, ep);
    let e = n.endpoints[ei];
    let ci = spec_cluster_idx(e.clusters, cl);
    let c = e.clusters[ci];
    let ai = spec_attr_idx(c.attributes, at);
    lemma_ep_idx(n.endpoints, ep);
    lemma_cluster_idx(e.clusters, cl);
    lemma_attr_idx(c.attributes, at);
    assert forall|i: int| 0 <= i < n.endpoints.len() implies spec_ep_shape(
        #[trigger] n.endpoints[i],
        r.endpoints[i],
    ) by {
        if i == ei {
            assert forall|j: int| 0 <= j < e.clusters.len() implies spec_cluster_shape(
                #[trigger] e.clusters[j],
                r.endpoints[i].clusters[j],
            ) by {
                if j == ci {
                    assert forall|k: int| 0 <= k < c.attributes.len() implies spec_attr_shape(
                        #[trigger] c.attributes[k],
                        r.endpoints[i].clusters[j].attributes[k],
                    ) by {
                        if k != ai {
                            assert(r.endpoints[i].clusters[j].attributes[k] == c.attributes[k]);
                        }
                    }
                } else {
                    assert(r.endpoints[i].clusters[j] == e.clusters[j]);
                    lemma_cluster_shape_refl(e.clusters[j]);
                }
            }
        } else {
            assert(r.endpoints[i] == n.endpoints[i]);
            lemma_ep_shape_refl(n.endpoints[i]);
        }
    }
}

/// A bare data-version bump leaves the tree's shape as it was.
pub proof fn lemma_bump_data_ver_shape(n: NodeView, ep: u16, cl: u32)
    requires
        spec_has_cluster(n, ep, cl),
    ensures
        spec_node_shape(n, spec_bump_data_ver(n, ep, cl)),
{
    let r = spec_bump_data_ver(n, ep, cl);
    let ei = spec_ep_idx(n.endpoints, ep);
    let e = n.endpoints[ei];
    let ci = spec_cluster_idx(e.clusters, cl);
    lemma_ep_idx(n.endpoints, ep);
    lemma_cluster_idx(e.clusters, cl);
    assert forall|i: int| 0 <= i < n.endpoints.len() implies spec_ep_shape(
        #[trigger] n.endpoints[i],
        r.endpoints[i],
    ) by {
        if i == ei {
            assert forall|j: int| 0 <= j < e.clusters.len() implies spec_cluster_shape(
                #[trigger] e.clusters[j],
                r.endpoints[i].clusters[j],
            ) by {
                if j == ci {
                    lemma_cluster_shape_refl(e.clusters[j]);
                    assert(spec_cluster_shape(e.clusters[j], r.endpoints[i].clusters[j]));
                } else {
                    assert(r.endpoints[i].clusters[j] == e.clusters[j]);
                    lemma_cluster_shape_refl(e.clusters[j]);
                }
            }
        } else {
            assert(r.endpoints[i] == n.endpoints[i]);
            lemma_ep_shape_refl(n.endpoints[i]);
        }
    }
}

} // verus!


verus! {

/// What a value write does to the tree as seen through lookups: the target
/// attribute now holds the value, the owning cluster's data version moved
/// up by one (wrapping) — and so differs from what it was — and the tree's
/// shape is unchanged.
pub proof fn lemma_write_value_lookup(n: NodeView, ep: u16, cl: u32, at: u32, value: u16)
    requires
        spec_has_attr(n, ep, cl, at),
    ensures
        spec_node_shape(n, spec_write_value(n, ep, cl, at, value)),
        spec_has_attr(spec_write_value(n, ep, cl, at, value), ep, cl, at),
        spec_cluster(spec_write_value(n, ep, cl, at, value), ep, cl).data_ver == spec_wrap_inc(
            spec_cluster(n, ep, cl).data_ver,
        ),
        spec_cluster(spec_write_value(n, ep, cl, at, value), ep, cl).data_ver != spec_cluster(
            n,
            ep,
            cl,
        ).data_ver,
        spec_attr(spec_write_value(n, ep, cl, at, value), ep, cl, at).value == value,
{
    let r = spec_write_value(n, ep, cl, at, value);
    let ei = spec_ep_idx(n.endpoints, ep);
    let e = n.endpoints[ei];
    let ci = spec_cluster_idx(e.clusters, cl);
    let c = e.clusters[ci];
    let ai = spec_attr_idx(c.attributes, at);
    lemma_ep_idx(n.endpoints, ep);
    lemma_cluster_idx(e.clusters, cl);
    lemma_attr_idx(c.attributes, at);
    lemma_write_value_shape(n, ep, cl, at, value);
    lemma_shape_lookup(n, r, ep, cl, at);
    assert(spec_ep(r, ep) == r.endpoints[ei]);
    assert(spec_cluster(r, ep, cl) == r.endpoints[ei].clusters[ci]);
    assert(spec_attr(r, ep, cl, at) == r.endpoints[ei].clusters[ci].attributes[ai]);
}

/// What a bare data-version bump does as seen through lookups.
pub proof fn lemma_bump_data_ver_lookup(n: NodeView, ep: u16, cl: u32)
    requires
        spec_has_cluster(n, ep, cl),
    ensures
        spec_node_shape(n, spec_bump_data_ver(n, ep, cl)),
        spec_has_cluster(spec_bump_data_ver(n, ep, cl), ep, cl),
        spec_cluster(spec_bump_data_ver(n, ep, cl), ep, cl).data_ver == spec_wrap_inc(
            spec_cluster(n, ep, cl).data_ver,
        ),
        spec_cluster(spec_bump_data_ver(n, ep, cl), ep, cl).data_ver != spec_cluster(
            n,
            ep,
            cl,
        ).data_ver,
{
    let r = spec_bump_data_ver(n, ep, cl);
    let ei = spec_ep_idx(n.endpoints, ep);
    let e = n.endpoints[ei];
    let ci = spec_cluster_idx(e.clusters, cl);
    lemma_ep_idx(n.endpoints, ep);
    lemma_cluster_idx(e.clusters, cl);
    lemma_bump_data_ver_shape(n, ep, cl);
    lemma_shape_lookup(n, r, ep, cl, 0);
    assert(spec_ep(r, ep) == r.endpoints[ei]);
    assert(spec_cluster(r, ep, cl) == r.endpoints[ei].clusters[ci]);
}

} // verus!
