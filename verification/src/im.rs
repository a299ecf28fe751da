//! Interaction Model messages: paths, statuses, requests and responses.
//!
//! Paths name positions in the data model tree; an unset field is a
//! wildcard. Requests carry paths (and, for writes and invokes, payloads);
//! responses mirror the requests in order, one or more elements per request.

use vstd::prelude::*;

use crate::acl::AclEntry;
use crate::acl::AclEntryView;

verus! {

/// Cluster id of the access-control cluster; a write to its list attribute
/// changes the permission set synchronously.
pub const ACL_CLUSTER_ID: u32 = 0x001F;

/// Attribute id of the access-control list within that cluster.
pub const ACL_ATTR_ID: u32 = 0;

/// The status codes a response can carry.
#[derive(Clone, Copy, Debug, PartialEq, Eq, Structural)]
pub enum IMStatusCode {
    Success,
    Failure,
    UnsupportedAccess,
    UnsupportedEndpoint,
    UnsupportedCluster,
    UnsupportedAttribute,
    UnsupportedCommand,
    UnsupportedWrite,
    DataVersionMismatch,
}

/// A position in the tree; `None` in a field means "any".
#[derive(Clone, Copy, Debug, PartialEq, Eq)]
pub struct GenericPath {
    pub endpoint: Option<u16>,
    pub cluster: Option<u32>,
    pub leaf: Option<u32>,
}

impl GenericPath {
    pub fn new(endpoint: Option<u16>, cluster: Option<u32>, leaf: Option<u32>) -> (p: GenericPath)
        ensures
            p == (GenericPath { endpoint, cluster, leaf }),
    {
        GenericPath { endpoint, cluster, leaf }
    }

    /// A path is concrete when every field is set.
    pub open spec fn spec_is_concrete(self) -> bool {
        self.endpoint is Some && self.cluster is Some && self.leaf is Some
    }

    pub fn is_concrete(&self) -> (r: bool)
        ensures
            r == self.spec_is_concrete(),
    {
        self.endpoint.is_some() && self.cluster.is_some() && self.leaf.is_some()
    }
}

/// One attribute path of a Read request.
#[derive(Clone, Copy, Debug, PartialEq, Eq)]
pub struct AttrPath {
    pub path: GenericPath,
}

impl AttrPath {
    pub fn new(path: &GenericPath) -> (p: AttrPath)
        ensures
            p == (AttrPath { path: *path }),
    {
        AttrPath { path: *path }
    }
}

/// One command path of an Invoke request.
#[derive(Clone, Copy, Debug, PartialEq, Eq)]
pub struct CmdPath {
    pub path: GenericPath,
}

impl CmdPath {
    pub fn new(endpoint: Option<u16>, cluster: Option<u32>, cmd: Option<u32>) -> (p: CmdPath)
        ensures
            p == (CmdPath { path: GenericPath { endpoint, cluster, leaf: cmd } }),
    {
        CmdPath { path: GenericPath { endpoint, cluster, leaf: cmd } }
    }
}

/// Names one cluster instance exactly.
#[derive(Clone, Copy, Debug, PartialEq, Eq)]
pub struct ClusterPath {
    pub node: Option<u64>,
    pub endpoint: u16,
    pub cluster: u32,
}

/// Skips a read of a cluster whose data version still equals `data_ver`.
#[derive(Clone, Copy, Debug, PartialEq, Eq)]
pub struct DataVersionFilter {
    pub path: ClusterPath,
    pub data_ver: u32,
}

/// The payload of one write: either a plain value for an ordinary
/// attribute, or an access-control entry for the list attribute of the
/// access-control cluster.
#[derive(Clone, Debug)]
pub enum AttrValue {
    U16(u16),
    Acl(AclEntry),
}

/// The mathematical shape of a write payload.
#[verifier::ext_equal]
pub enum AttrValueView {
    U16(u16),
    Acl(AclEntryView),
}

impl View for AttrValue {
    type V = AttrValueView;

    open spec fn view(&self) -> AttrValueView {
        match self {
            AttrValue::U16(v) => AttrValueView::U16(*v),
            AttrValue::Acl(e) => AttrValueView::Acl(e@),
        }
    }
}

/// One element of a Write request: where to write and what, with an
/// optional data version the cluster must still be at.
#[derive(Clone, Debug)]
pub struct AttrData {
    pub data_ver: Option<u32>,
    pub path: AttrPath,
    pub data: AttrValue,
}

/// The mathematical shape of one write element.
#[verifier::ext_equal]
pub struct AttrDataView {
    pub data_ver: Option<u32>,
    pub path: GenericPath,
    pub data: AttrValueView,
}

impl View for AttrData {
    type V = AttrDataView;

    open spec fn view(&self) -> AttrDataView {
        AttrDataView { data_ver: self.data_ver, path: self.path.path, data: self.data@ }
    }
}

impl AttrData {
    pub fn new(data_ver: Option<u32>, path: AttrPath, data: AttrValue) -> (d: AttrData)
        ensures
            d@ == (AttrDataView { data_ver, path: path.path, data: data@ }),
    {
        AttrData { data_ver, path, data }
    }
}

/// One status element of a Write response.
#[derive(Clone, Copy, Debug, PartialEq, Eq)]
pub struct AttrStatus {
    pub path: GenericPath,
    pub status: IMStatusCode,
    pub cluster_status: u16,
}

impl AttrStatus {
    pub fn new(path: &GenericPath, status: IMStatusCode, cluster_status: u16) -> (s: AttrStatus)
        ensures
            s == (AttrStatus { path: *path, status, cluster_status }),
    {
        AttrStatus { path: *path, status, cluster_status }
    }
}

/// One data element of a Read response: the resolved path, the value and
/// the owning cluster's data version.
#[derive(Clone, Copy, Debug, PartialEq, Eq)]
pub struct AttrDataResp {
    pub data_ver: u32,
    pub path: GenericPath,
    pub data: u16,
}

/// One element of a Read response.
#[derive(Clone, Copy, Debug, PartialEq, Eq)]
pub enum AttrResp {
    Data(AttrDataResp),
    Status(AttrStatus),
}

/// One element of an Invoke request.
#[derive(Clone, Copy, Debug, PartialEq, Eq)]
pub struct CmdData {
    pub path: CmdPath,
    pub data: u32,
}

impl CmdData {
    pub fn new(path: CmdPath, data: u32) -> (d: CmdData)
        ensures
            d == (CmdData { path, data }),
    {
        CmdData { path, data }
    }
}

/// One status element of an Invoke response.
#[derive(Clone, Copy, Debug, PartialEq, Eq)]
pub struct CmdStatus {
    pub path: CmdPath,
    pub status: IMStatusCode,
    pub cluster_status: u16,
}

impl CmdStatus {
    pub fn new(path: CmdPath, status: IMStatusCode, cluster_status: u16) -> (s: CmdStatus)
        ensures
            s == (CmdStatus { path, status, cluster_status }),
    {
        CmdStatus { path, status, cluster_status }
    }
}

/// One data element of an Invoke response: the responding command's path
/// and its payload.
#[derive(Clone, Copy, Debug, PartialEq, Eq)]
pub struct CmdDataResp {
    pub path: CmdPath,
    pub data: u32,
}

/// One element of an Invoke response.
#[derive(Clone, Copy, Debug, PartialEq, Eq)]
pub enum InvResp {
    Cmd(CmdDataResp),
    Status(CmdStatus),
}

} // verus!
