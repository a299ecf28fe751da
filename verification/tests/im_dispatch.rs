//! The Interaction Model dispatcher against a two-endpoint device: an echo
//! cluster on both endpoints (doubling on endpoint 0, tripling on endpoint
//! 1), the access-control cluster on endpoint 0 and an on/off cluster on
//! endpoint 1 only.

use rs_matter::acl::{gen_noc_cat, AclEntry, AclMgr, Accessor, AuthMode, Privilege, Target};
use rs_matter::dispatch::{invoke_reqs, read_reqs, write_reqs};
use rs_matter::dm::{Attribute, Cluster, CmdEffect, Command, Endpoint, Node};
use rs_matter::im::{
    AttrData, AttrPath, AttrResp, AttrStatus, AttrValue, ClusterPath, CmdData, CmdPath, CmdStatus,
    DataVersionFilter, GenericPath, IMStatusCode, InvResp, ACL_ATTR_ID, ACL_CLUSTER_ID,
};

const ECHO_CLUSTER_ID: u32 = 0xABCD;
const ATT1: u32 = 1;
const ATT2: u32 = 2;
const ATT_WRITE: u32 = 3;
const ATTR_WRITE_DEFAULT_VALUE: u16 = 0xCAFE;
const ECHO_REQ: u32 = 0;
const ECHO_RESP: u32 = 1;
const ON_OFF_CLUSTER_ID: u32 = 6;
const ON_CMD: u32 = 1;
const IM_ENGINE_PEER_ID: u64 = 445566;

fn echo_cluster(data_ver: u32, multiplier: u32) -> Cluster {
    Cluster {
        id: ECHO_CLUSTER_ID,
        data_ver,
        attributes: vec![
            Attribute { id: ATT1, value: 0x1234, read_priv: Privilege::View, write_priv: None },
            Attribute { id: ATT2, value: 0x5678, read_priv: Privilege::View, write_priv: None },
            Attribute {
                id: ATT_WRITE,
                value: ATTR_WRITE_DEFAULT_VALUE,
                read_priv: Privilege::View,
                write_priv: Some(Privilege::Admin),
            },
        ],
        commands: vec![Command { id: ECHO_REQ, effect: CmdEffect::Echo { multiplier, resp_cmd: ECHO_RESP } }],
    }
}

fn acl_cluster(data_ver: u32) -> Cluster {
    Cluster {
        id: ACL_CLUSTER_ID,
        data_ver,
        attributes: vec![
            Attribute {
                id: ACL_ATTR_ID,
                value: 0,
                read_priv: Privilege::Admin,
                write_priv: Some(Privilege::Admin),
            },
        ],
        commands: vec![],
    }
}

fn on_off_cluster(data_ver: u32) -> Cluster {
    Cluster {
        id: ON_OFF_CLUSTER_ID,
        data_ver,
        attributes: vec![
            Attribute { id: 0, value: 0, read_priv: Privilege::View, write_priv: Some(Privilege::Operate) },
        ],
        commands: vec![Command { id: ON_CMD, effect: CmdEffect::StatusOnly }],
    }
}

/// The test device: endpoint 0 doubles echoes, endpoint 1 triples them and
/// alone hosts the on/off cluster.
fn test_node() -> Node {
    Node {
        endpoints: vec![
            Endpoint { id: 0, clusters: vec![acl_cluster(30000), echo_cluster(10000, 2)] },
            Endpoint { id: 1, clusters: vec![echo_cluster(20000, 3), on_off_cluster(40000)] },
        ],
    }
}

fn accessor() -> Accessor {
    Accessor { fab_idx: 1, node_id: IM_ENGINE_PEER_ID, cat_ids: [0, 0, 0], auth_mode: AuthMode::Case }
}

fn accessor_with_cats(cat_ids: [u64; 3]) -> Accessor {
    Accessor { fab_idx: 1, node_id: IM_ENGINE_PEER_ID, cat_ids, auth_mode: AuthMode::Case }
}

fn admin_entry_for_peer() -> AclEntry {
    let mut acl = AclEntry::new(1, Privilege::Admin, AuthMode::Case);
    acl.add_subject(IM_ENGINE_PEER_ID).unwrap();
    acl
}

/// Compares a read report with the expected elements, ignoring the data
/// versions of data elements (they depend on the clusters' starting
/// versions).
fn assert_attr_report(received: &[AttrResp], expected: &[AttrResp]) {
    assert_eq!(received.len(), expected.len());
    for (got, want) in received.iter().zip(expected.iter()) {
        match (got, want) {
            (AttrResp::Data(g), AttrResp::Data(w)) => {
                assert_eq!(g.path, w.path);
                assert_eq!(g.data, w.data);
            }
            (AttrResp::Status(g), AttrResp::Status(w)) => assert_eq!(g, w),
            _ => panic!("mismatched response kinds"),
        }
    }
}

fn data_resp(path: GenericPath, data: u16) -> AttrResp {
    AttrResp::Data(rs_matter::im::AttrDataResp { data_ver: 0, path, data })
}

fn read(node: &Node, acl: &AclMgr, acc: &Accessor, input: &[AttrPath]) -> Vec<AttrResp> {
    read_reqs(node, acl, acc, &input.to_vec(), &vec![])
}

fn read_with_filters(
    node: &Node,
    acl: &AclMgr,
    acc: &Accessor,
    input: &[AttrPath],
    filters: &[DataVersionFilter],
) -> Vec<AttrResp> {
    read_reqs(node, acl, acc, &input.to_vec(), &filters.to_vec())
}

fn write(node: &mut Node, acl: &mut AclMgr, acc: &Accessor, input: &[AttrData]) -> Vec<AttrStatus> {
    write_reqs(node, acl, acc, &input.to_vec())
}

fn u16_write(path: &GenericPath, val: u16) -> AttrData {
    AttrData::new(None, AttrPath::new(path), AttrValue::U16(val))
}

#[test]
fn wc_read_attribute() {
    // wildcard reads silently drop what access control denies
    let wc_att1 = GenericPath::new(None, Some(ECHO_CLUSTER_ID), Some(ATT1));
    let ep0_att1 = GenericPath::new(Some(0), Some(ECHO_CLUSTER_ID), Some(ATT1));
    let ep1_att1 = GenericPath::new(Some(1), Some(ECHO_CLUSTER_ID), Some(ATT1));

    let node = test_node();
    let mut acl = AclMgr::new();
    let acc = accessor();

    // no matching entry: an empty report
    let input = [AttrPath::new(&wc_att1)];
    assert_attr_report(&read(&node, &acl, &acc, &input), &[]);

    // an entry for endpoint 0 only: one element
    let mut entry = AclEntry::new(1, Privilege::Admin, AuthMode::Case);
    entry.add_subject(IM_ENGINE_PEER_ID).unwrap();
    entry.add_target(Target::new(Some(0), None, None)).unwrap();
    acl.add(entry).unwrap();
    assert_attr_report(&read(&node, &acl, &acc, &input), &[data_resp(ep0_att1, 0x1234)]);

    // an entry for endpoint 1 as well: both elements
    let mut entry = AclEntry::new(1, Privilege::Admin, AuthMode::Case);
    entry.add_subject(IM_ENGINE_PEER_ID).unwrap();
    entry.add_target(Target::new(Some(1), None, None)).unwrap();
    acl.add(entry).unwrap();
    assert_attr_report(
        &read(&node, &acl, &acc, &input),
        &[data_resp(ep0_att1, 0x1234), data_resp(ep1_att1, 0x1234)],
    );
}

#[test]
fn exact_read_attribute() {
    // a concrete read answers with a status where access is denied
    let wc_att1 = GenericPath::new(Some(0), Some(ECHO_CLUSTER_ID), Some(ATT1));
    let ep0_att1 = GenericPath::new(Some(0), Some(ECHO_CLUSTER_ID), Some(ATT1));

    let node = test_node();
    let mut acl = AclMgr::new();
    let acc = accessor();

    let input = [AttrPath::new(&wc_att1)];
    let expected = [AttrResp::Status(AttrStatus::new(&ep0_att1, IMStatusCode::UnsupportedAccess, 0))];
    assert_attr_report(&read(&node, &acl, &acc, &input), &expected);

    acl.add(admin_entry_for_peer()).unwrap();
    assert_attr_report(&read(&node, &acl, &acc, &input), &[data_resp(ep0_att1, 0x1234)]);
}

#[test]
fn wc_write_attribute() {
    let val0: u16 = 10;
    let val1: u16 = 20;

    let wc_att = GenericPath::new(None, Some(ECHO_CLUSTER_ID), Some(ATT_WRITE));
    let ep0_att = GenericPath::new(Some(0), Some(ECHO_CLUSTER_ID), Some(ATT_WRITE));
    let ep1_att = GenericPath::new(Some(1), Some(ECHO_CLUSTER_ID), Some(ATT_WRITE));

    let input0 = [u16_write(&wc_att, val0)];
    let input1 = [u16_write(&wc_att, val1)];

    let mut node = test_node();
    let mut acl = AclMgr::new();
    let acc = accessor();

    // a wildcard write without permission is silently dropped
    assert_eq!(write(&mut node, &mut acl, &acc, &input0), vec![]);
    assert_eq!(ATTR_WRITE_DEFAULT_VALUE, node.attr_value(0, ECHO_CLUSTER_ID, ATT_WRITE).unwrap());

    // an entry for endpoint 0: one success, endpoint 1 untouched
    let mut entry = AclEntry::new(1, Privilege::Admin, AuthMode::Case);
    entry.add_subject(IM_ENGINE_PEER_ID).unwrap();
    entry.add_target(Target::new(Some(0), None, None)).unwrap();
    acl.add(entry).unwrap();
    assert_eq!(
        write(&mut node, &mut acl, &acc, &input0),
        vec![AttrStatus::new(&ep0_att, IMStatusCode::Success, 0)]
    );
    assert_eq!(val0, node.attr_value(0, ECHO_CLUSTER_ID, ATT_WRITE).unwrap());
    assert_eq!(ATTR_WRITE_DEFAULT_VALUE, node.attr_value(1, ECHO_CLUSTER_ID, ATT_WRITE).unwrap());

    // an entry for endpoint 1 as well: both succeed
    let mut entry = AclEntry::new(1, Privilege::Admin, AuthMode::Case);
    entry.add_subject(IM_ENGINE_PEER_ID).unwrap();
    entry.add_target(Target::new(Some(1), None, None)).unwrap();
    acl.add(entry).unwrap();
    assert_eq!(
        write(&mut node, &mut acl, &acc, &input1),
        vec![
            AttrStatus::new(&ep0_att, IMStatusCode::Success, 0),
            AttrStatus::new(&ep1_att, IMStatusCode::Success, 0),
        ]
    );
    assert_eq!(val1, node.attr_value(0, ECHO_CLUSTER_ID, ATT_WRITE).unwrap());
    assert_eq!(val1, node.attr_value(1, ECHO_CLUSTER_ID, ATT_WRITE).unwrap());
}

#[test]
fn exact_write_attribute() {
    let val0: u16 = 10;

    let ep0_att = GenericPath::new(Some(0), Some(ECHO_CLUSTER_ID), Some(ATT_WRITE));
    let input = [u16_write(&ep0_att, val0)];
    let expected_fail = vec![AttrStatus::new(&ep0_att, IMStatusCode::UnsupportedAccess, 0)];
    let expected_success = vec![AttrStatus::new(&ep0_att, IMStatusCode::Success, 0)];

    let mut node = test_node();
    let mut acl = AclMgr::new();
    let acc = accessor();

    assert_eq!(write(&mut node, &mut acl, &acc, &input), expected_fail);
    assert_eq!(ATTR_WRITE_DEFAULT_VALUE, node.attr_value(0, ECHO_CLUSTER_ID, ATT_WRITE).unwrap());

    acl.add(admin_entry_for_peer()).unwrap();
    assert_eq!(write(&mut node, &mut acl, &acc, &input), expected_success);
    assert_eq!(val0, node.attr_value(0, ECHO_CLUSTER_ID, ATT_WRITE).unwrap());
}

#[test]
fn exact_write_attribute_noc_cat() {
    // the accessor's CAT version is one above the entry's: it dominates
    let val0: u16 = 10;

    let ep0_att = GenericPath::new(Some(0), Some(ECHO_CLUSTER_ID), Some(ATT_WRITE));
    let input = [u16_write(&ep0_att, val0)];
    let expected_fail = vec![AttrStatus::new(&ep0_att, IMStatusCode::UnsupportedAccess, 0)];
    let expected_success = vec![AttrStatus::new(&ep0_att, IMStatusCode::Success, 0)];

    let noc_cat = gen_noc_cat(0xABCD, 2);
    let cat_in_acl = gen_noc_cat(0xABCD, 1);

    let mut node = test_node();
    let mut acl = AclMgr::new();
    let acc = accessor_with_cats([noc_cat, 0, 0]);

    assert_eq!(write(&mut node, &mut acl, &acc, &input), expected_fail);
    assert_eq!(ATTR_WRITE_DEFAULT_VALUE, node.attr_value(0, ECHO_CLUSTER_ID, ATT_WRITE).unwrap());

    let mut entry = AclEntry::new(1, Privilege::Admin, AuthMode::Case);
    entry.add_subject_catid(cat_in_acl).unwrap();
    acl.add(entry).unwrap();
    assert_eq!(write(&mut node, &mut acl, &acc, &input), expected_success);
    assert_eq!(val0, node.attr_value(0, ECHO_CLUSTER_ID, ATT_WRITE).unwrap());
}

#[test]
fn insufficient_perms_write() {
    // Operate does not cover a write that needs Admin
    let val0: u16 = 10;
    let ep0_att = GenericPath::new(Some(0), Some(ECHO_CLUSTER_ID), Some(ATT_WRITE));
    let input0 = [u16_write(&ep0_att, val0)];

    let mut node = test_node();
    let mut acl = AclMgr::new();
    let acc = accessor();

    let mut entry = AclEntry::new(1, Privilege::Operate, AuthMode::Case);
    entry.add_subject(IM_ENGINE_PEER_ID).unwrap();
    entry.add_target(Target::new(Some(0), None, None)).unwrap();
    acl.add(entry).unwrap();

    assert_eq!(
        write(&mut node, &mut acl, &acc, &input0),
        vec![AttrStatus::new(&ep0_att, IMStatusCode::UnsupportedAccess, 0)]
    );
    assert_eq!(ATTR_WRITE_DEFAULT_VALUE, node.attr_value(0, ECHO_CLUSTER_ID, ATT_WRITE).unwrap());
}

#[test]
fn write_with_runtime_acl_add() {
    // a write to the access-control list grants the rest of the same batch
    let mut node = test_node();
    let mut acl = AclMgr::new();
    let acc = accessor();

    let val0: u16 = 10;
    let ep0_att = GenericPath::new(Some(0), Some(ECHO_CLUSTER_ID), Some(ATT_WRITE));
    let input0 = u16_write(&ep0_att, val0);

    // the entry the batch installs: admin on everything for our peer
    let allow_acl = admin_entry_for_peer();

    let acl_att = GenericPath::new(Some(0), Some(ACL_CLUSTER_ID), Some(ACL_ATTR_ID));
    let acl_input = AttrData::new(None, AttrPath::new(&acl_att), AttrValue::Acl(allow_acl));

    // before the batch: only the access-control cluster is writable
    let mut basic_acl = AclEntry::new(1, Privilege::Admin, AuthMode::Case);
    basic_acl.add_subject(IM_ENGINE_PEER_ID).unwrap();
    basic_acl.add_target(Target::new(Some(0), Some(ACL_CLUSTER_ID), None)).unwrap();
    acl.add(basic_acl).unwrap();

    let input = [input0.clone(), acl_input, input0];
    assert_eq!(
        write(&mut node, &mut acl, &acc, &input),
        vec![
            AttrStatus::new(&ep0_att, IMStatusCode::UnsupportedAccess, 0),
            AttrStatus::new(&acl_att, IMStatusCode::Success, 0),
            AttrStatus::new(&ep0_att, IMStatusCode::Success, 0),
        ]
    );
    assert_eq!(val0, node.attr_value(0, ECHO_CLUSTER_ID, ATT_WRITE).unwrap());
}

#[test]
fn test_read_data_ver() {
    // data version filtering drops matching clusters from wildcard reads
    // and from concrete reads alike
    let node = test_node();
    let mut acl = AclMgr::new();
    let acc = accessor();
    acl.add(AclEntry::new(1, Privilege::Operate, AuthMode::Case)).unwrap();

    let wc_ep_att1 = GenericPath::new(None, Some(ECHO_CLUSTER_ID), Some(ATT1));
    let input = [AttrPath::new(&wc_ep_att1)];

    let expected = [
        data_resp(GenericPath::new(Some(0), Some(ECHO_CLUSTER_ID), Some(ATT1)), 0x1234),
        data_resp(GenericPath::new(Some(1), Some(ECHO_CLUSTER_ID), Some(ATT1)), 0x1234),
    ];

    // a plain read reports both endpoints and carries endpoint 0's version
    let received = read(&node, &acl, &acc, &input);
    assert_attr_report(&received, &expected);
    let data_ver_cluster_at_0 = match &received[0] {
        AttrResp::Data(d) => d.data_ver,
        _ => panic!("expected data"),
    };

    let dataver_filter = [DataVersionFilter {
        path: ClusterPath { node: None, endpoint: 0, cluster: ECHO_CLUSTER_ID },
        data_ver: data_ver_cluster_at_0,
    }];

    // with the filter only endpoint 1 reports
    let received = read_with_filters(&node, &acl, &acc, &input, &dataver_filter);
    let expected_only_one =
        [data_resp(GenericPath::new(Some(1), Some(ECHO_CLUSTER_ID), Some(ATT1)), 0x1234)];
    assert_attr_report(&received, &expected_only_one);

    // a concrete read of the filtered cluster reports nothing at all
    let ep0_att1 = GenericPath::new(Some(0), Some(ECHO_CLUSTER_ID), Some(ATT1));
    let input = [AttrPath::new(&ep0_att1)];
    let received = read_with_filters(&node, &acl, &acc, &input, &dataver_filter);
    assert_attr_report(&received, &[]);
}

#[test]
fn test_write_data_ver() {
    // a write with the current version goes through; a stale one fails; a
    // wildcard write skips the endpoint whose version mismatches
    let mut node = test_node();
    let mut acl = AclMgr::new();
    let acc = accessor();
    acl.add(AclEntry::new(1, Privilege::Admin, AuthMode::Case)).unwrap();

    let wc_ep_attwrite = GenericPath::new(None, Some(ECHO_CLUSTER_ID), Some(ATT_WRITE));
    let ep0_attwrite = GenericPath::new(Some(0), Some(ECHO_CLUSTER_ID), Some(ATT_WRITE));

    let val0: u16 = 10;
    let val1: u16 = 11;

    let initial_data_ver = node.cluster_data_ver(0, ECHO_CLUSTER_ID).unwrap();

    // correct version: success
    let input_correct_dataver = [AttrData::new(
        Some(initial_data_ver),
        AttrPath::new(&ep0_attwrite),
        AttrValue::U16(val0),
    )];
    assert_eq!(
        write(&mut node, &mut acl, &acc, &input_correct_dataver),
        vec![AttrStatus::new(&ep0_attwrite, IMStatusCode::Success, 0)]
    );
    assert_eq!(val0, node.attr_value(0, ECHO_CLUSTER_ID, ATT_WRITE).unwrap());

    // the version moved on: the same version now fails
    let input_stale_dataver = [AttrData::new(
        Some(initial_data_ver),
        AttrPath::new(&ep0_attwrite),
        AttrValue::U16(val1),
    )];
    assert_eq!(
        write(&mut node, &mut acl, &acc, &input_stale_dataver),
        vec![AttrStatus::new(&ep0_attwrite, IMStatusCode::DataVersionMismatch, 0)]
    );
    assert_eq!(val0, node.attr_value(0, ECHO_CLUSTER_ID, ATT_WRITE).unwrap());

    // a wildcard write whose version matches endpoint 0 only writes there
    let new_data_ver = node.cluster_data_ver(0, ECHO_CLUSTER_ID).unwrap();

    let input_wildcard = [AttrData::new(
        Some(new_data_ver),
        AttrPath::new(&wc_ep_attwrite),
        AttrValue::U16(val1),
    )];
    assert_eq!(
        write(&mut node, &mut acl, &acc, &input_wildcard),
        vec![AttrStatus::new(&ep0_attwrite, IMStatusCode::Success, 0)]
    );
    assert_eq!(val1, node.attr_value(0, ECHO_CLUSTER_ID, ATT_WRITE).unwrap());

    assert_eq!(initial_data_ver + 1, new_data_ver);
}

enum ExpectedInvResp {
    Cmd(CmdPath, u32),
    Status(CmdStatus),
}

fn handle_commands(input: &[CmdData], expected: &[ExpectedInvResp]) {
    let node = test_node();
    let mut acl = AclMgr::new();
    let acc = accessor();
    acl.add(admin_entry_for_peer()).unwrap();

    let responses = invoke_reqs(&node, &acl, &acc, &input.to_vec());
    assert_eq!(responses.len(), expected.len());
    for (got, want) in responses.iter().zip(expected.iter()) {
        match (got, want) {
            (InvResp::Cmd(c), ExpectedInvResp::Cmd(path, data)) => {
                assert_eq!(&c.path, path);
                assert_eq!(&c.data, data);
            }
            (InvResp::Status(s), ExpectedInvResp::Status(status)) => assert_eq!(s, status),
            _ => panic!("mismatched response kinds"),
        }
    }
}

fn echo_req(endpoint: u16, data: u32) -> CmdData {
    CmdData::new(
        CmdPath::new(Some(endpoint), Some(ECHO_CLUSTER_ID), Some(ECHO_REQ)),
        data,
    )
}

fn echo_resp(endpoint: u16, data: u32) -> ExpectedInvResp {
    ExpectedInvResp::Cmd(
        CmdPath::new(Some(endpoint), Some(ECHO_CLUSTER_ID), Some(ECHO_RESP)),
        data,
    )
}

#[test]
fn test_invoke_cmds_success() {
    // two echoes: endpoint 0 doubles, endpoint 1 triples
    let input = [echo_req(0, 5), echo_req(1, 10)];
    let expected = [echo_resp(0, 10), echo_resp(1, 30)];
    handle_commands(&input, &expected);
}

#[test]
fn test_invoke_cmds_unsupported_fields() {
    // unsupported endpoint, cluster and command answer with a status when
    // the path is concrete, and silently when the endpoint is a wildcard
    let invalid_endpoint = CmdPath::new(Some(2), Some(ECHO_CLUSTER_ID), Some(ECHO_REQ));
    let invalid_cluster = CmdPath::new(Some(0), Some(0x1234), Some(ECHO_REQ));
    let invalid_cluster_wc_endpoint = CmdPath::new(None, Some(0x1234), Some(ECHO_REQ));
    let invalid_command = CmdPath::new(Some(0), Some(ECHO_CLUSTER_ID), Some(0x1234));
    let invalid_command_wc_endpoint = CmdPath::new(None, Some(ECHO_CLUSTER_ID), Some(0x1234));
    let input = [
        CmdData::new(invalid_endpoint, 5),
        CmdData::new(invalid_cluster, 5),
        CmdData::new(invalid_cluster_wc_endpoint, 5),
        CmdData::new(invalid_command, 5),
        CmdData::new(invalid_command_wc_endpoint, 5),
    ];

    let expected = [
        ExpectedInvResp::Status(CmdStatus::new(invalid_endpoint, IMStatusCode::UnsupportedEndpoint, 0)),
        ExpectedInvResp::Status(CmdStatus::new(invalid_cluster, IMStatusCode::UnsupportedCluster, 0)),
        ExpectedInvResp::Status(CmdStatus::new(invalid_command, IMStatusCode::UnsupportedCommand, 0)),
    ];
    handle_commands(&input, &expected);
}

#[test]
fn test_invoke_cmd_wc_endpoint_all_have_clusters() {
    // one wildcard echo answers from both endpoints
    let path = CmdPath::new(None, Some(ECHO_CLUSTER_ID), Some(ECHO_REQ));
    let input = [CmdData::new(path, 5)];
    let expected = [echo_resp(0, 10), echo_resp(1, 15)];
    handle_commands(&input, &expected);
}

#[test]
fn test_invoke_cmd_wc_endpoint_only_1_has_cluster() {
    // only endpoint 1 hosts the on/off cluster: one response
    let target = CmdPath::new(None, Some(ON_OFF_CLUSTER_ID), Some(ON_CMD));
    let expected_path = CmdPath::new(Some(1), Some(ON_OFF_CLUSTER_ID), Some(ON_CMD));
    let input = [CmdData::new(target, 1)];
    let expected =
        [ExpectedInvResp::Status(CmdStatus::new(expected_path, IMStatusCode::Success, 0))];
    handle_commands(&input, &expected);
}

#[test]
fn write_same_value_twice_two_increments() {
    // writing the same value twice answers Success twice and moves the
    // data version up by one each time
    let mut node = test_node();
    let mut acl = AclMgr::new();
    let acc = accessor();
    acl.add(admin_entry_for_peer()).unwrap();

    let ep0_att = GenericPath::new(Some(0), Some(ECHO_CLUSTER_ID), Some(ATT_WRITE));
    let input = [u16_write(&ep0_att, 77)];
    let expected = vec![AttrStatus::new(&ep0_att, IMStatusCode::Success, 0)];

    let v0 = node.cluster_data_ver(0, ECHO_CLUSTER_ID).unwrap();
    assert_eq!(write(&mut node, &mut acl, &acc, &input), expected);
    let v1 = node.cluster_data_ver(0, ECHO_CLUSTER_ID).unwrap();
    assert_eq!(write(&mut node, &mut acl, &acc, &input), expected);
    let v2 = node.cluster_data_ver(0, ECHO_CLUSTER_ID).unwrap();

    assert_eq!(v1, v0.wrapping_add(1));
    assert_eq!(v2, v1.wrapping_add(1));
    assert_eq!(77, node.attr_value(0, ECHO_CLUSTER_ID, ATT_WRITE).unwrap());
}

#[test]
fn acl_grant_is_monotone() {
    // what one entry allows, adding any further entry still allows
    let node = test_node();
    let mut acl = AclMgr::new();
    let acc = accessor();
    acl.add(admin_entry_for_peer()).unwrap();

    let ep0_att1 = GenericPath::new(Some(0), Some(ECHO_CLUSTER_ID), Some(ATT1));
    let input = [AttrPath::new(&ep0_att1)];
    assert_attr_report(&read(&node, &acl, &acc, &input), &[data_resp(ep0_att1, 0x1234)]);

    // an unrelated entry for another fabric changes nothing that was allowed
    let mut other = AclEntry::new(5, Privilege::View, AuthMode::Pase);
    other.add_subject(7).unwrap();
    acl.add(other).unwrap();
    assert_attr_report(&read(&node, &acl, &acc, &input), &[data_resp(ep0_att1, 0x1234)]);
}

#[test]
fn empty_requests_answer_empty() {
    let mut node = test_node();
    let mut acl = AclMgr::new();
    let acc = accessor();
    assert_eq!(read(&node, &acl, &acc, &[]).len(), 0);
    assert_eq!(write(&mut node, &mut acl, &acc, &[]).len(), 0);
    assert_eq!(invoke_reqs(&node, &acl, &acc, &vec![]).len(), 0);
}

#[test]
fn read_only_attribute_refuses_writes() {
    let mut node = test_node();
    let mut acl = AclMgr::new();
    let acc = accessor();
    acl.add(admin_entry_for_peer()).unwrap();

    let ep0_att1 = GenericPath::new(Some(0), Some(ECHO_CLUSTER_ID), Some(ATT1));
    let input = [u16_write(&ep0_att1, 1)];
    assert_eq!(
        write(&mut node, &mut acl, &acc, &input),
        vec![AttrStatus::new(&ep0_att1, IMStatusCode::UnsupportedWrite, 0)]
    );
}

#[test]
fn write_statuses_for_missing_paths() {
    let mut node = test_node();
    let mut acl = AclMgr::new();
    let acc = accessor();
    acl.add(admin_entry_for_peer()).unwrap();

    let bad_ep = GenericPath::new(Some(9), Some(ECHO_CLUSTER_ID), Some(ATT_WRITE));
    let bad_cluster = GenericPath::new(Some(0), Some(0x9999), Some(ATT_WRITE));
    let bad_attr = GenericPath::new(Some(0), Some(ECHO_CLUSTER_ID), Some(0x77));
    let input = [u16_write(&bad_ep, 1), u16_write(&bad_cluster, 1), u16_write(&bad_attr, 1)];
    assert_eq!(
        write(&mut node, &mut acl, &acc, &input),
        vec![
            AttrStatus::new(&bad_ep, IMStatusCode::UnsupportedEndpoint, 0),
            AttrStatus::new(&bad_cluster, IMStatusCode::UnsupportedCluster, 0),
            AttrStatus::new(&bad_attr, IMStatusCode::UnsupportedAttribute, 0),
        ]
    );
}

#[test]
fn acl_attribute_refuses_plain_values() {
    // the access-control list takes entries, not plain values
    let mut node = test_node();
    let mut acl = AclMgr::new();
    let acc = accessor();
    acl.add(admin_entry_for_peer()).unwrap();

    let acl_att = GenericPath::new(Some(0), Some(ACL_CLUSTER_ID), Some(ACL_ATTR_ID));
    let input = [u16_write(&acl_att, 1)];
    assert_eq!(
        write(&mut node, &mut acl, &acc, &input),
        vec![AttrStatus::new(&acl_att, IMStatusCode::Failure, 0)]
    );
}

#[test]
fn acl_list_full_write_fails() {
    let mut node = test_node();
    let mut acl = AclMgr::new();
    let acc = accessor();
    for _ in 0..rs_matter::acl::MAX_ACL_ENTRIES {
        acl.add(admin_entry_for_peer()).unwrap();
    }
    assert_eq!(acl.len(), rs_matter::acl::MAX_ACL_ENTRIES);
    assert!(acl.add(admin_entry_for_peer()).is_err());

    let acl_att = GenericPath::new(Some(0), Some(ACL_CLUSTER_ID), Some(ACL_ATTR_ID));
    let input = [AttrData::new(
        None,
        AttrPath::new(&acl_att),
        AttrValue::Acl(admin_entry_for_peer()),
    )];
    assert_eq!(
        write(&mut node, &mut acl, &acc, &input),
        vec![AttrStatus::new(&acl_att, IMStatusCode::Failure, 0)]
    );
}

#[test]
fn noc_cat_subject_exact_value() {
    assert_eq!(gen_noc_cat(0xABCD, 2), 0xFFFF_FFFD_ABCD_0002);
    assert_eq!(gen_noc_cat(0, 0), 0xFFFF_FFFD_0000_0000);
}

#[test]
fn lower_cat_version_does_not_dominate() {
    // the accessor's CAT version is one below the entry's: no match
    let mut node = test_node();
    let mut acl = AclMgr::new();
    let acc = accessor_with_cats([gen_noc_cat(0xABCD, 1), 0, 0]);

    let mut entry = AclEntry::new(1, Privilege::Admin, AuthMode::Case);
    entry.add_subject_catid(gen_noc_cat(0xABCD, 2)).unwrap();
    acl.add(entry).unwrap();

    let ep0_att = GenericPath::new(Some(0), Some(ECHO_CLUSTER_ID), Some(ATT_WRITE));
    let input = [u16_write(&ep0_att, 10)];
    assert_eq!(
        write(&mut node, &mut acl, &acc, &input),
        vec![AttrStatus::new(&ep0_att, IMStatusCode::UnsupportedAccess, 0)]
    );
}

#[test]
fn wrong_auth_mode_is_denied() {
    let node = test_node();
    let mut acl = AclMgr::new();
    let mut acc = accessor();
    acc.auth_mode = AuthMode::Pase;
    acl.add(admin_entry_for_peer()).unwrap();

    let ep0_att1 = GenericPath::new(Some(0), Some(ECHO_CLUSTER_ID), Some(ATT1));
    let input = [AttrPath::new(&ep0_att1)];
    let expected = [AttrResp::Status(AttrStatus::new(&ep0_att1, IMStatusCode::UnsupportedAccess, 0))];
    assert_attr_report(&read(&node, &acl, &acc, &input), &expected);
}
