//! The transport core: header codecs, sessions, reliability, the pipe and
//! the exchange engine driven packet by packet.

use rs_matter::engine::{Matter, PacketBuffers, RunBuffers};
use rs_matter::error::Error;
use rs_matter::exchange::{ExchangeState, MAX_EXCHANGES};
use rs_matter::mrp::{ReliableMessage, MRP_MAX_RETRIES};
use rs_matter::packet::{
    plain_hdr_decode, plain_hdr_encode, proto_hdr_decode, proto_hdr_encode, Address, ImOpCode,
    OpCodeDescriptor, Packet, PlainHdr, ProtoHdr, ScOpCode, OPCODE_MRP_STANDALONE_ACK,
    PROTO_ID_INTERACTION_MODEL, PROTO_ID_SECURE_CHANNEL,
};
use rs_matter::pipe::Pipe;
use rs_matter::session::SessionMgr;

const PEER: Address = Address { ip: 10, port: 5540 };
const IM_INVOKE_REQUEST: u8 = 0x08;
const IM_INVOKE_RESPONSE: u8 = 0x09;

fn engine_with_session() -> Matter {
    let mut matter = Matter::new();
    matter.session_mgr.add_session(1, 100, PEER, Some(99), true).unwrap();
    matter
}

fn request_packet(exch_id: u16, ctr: u32, payload: Vec<u8>) -> Packet {
    Packet {
        peer: PEER,
        plain: PlainHdr { sess_id: 1, ctr, src_nodeid: None, dst_nodeid: None },
        proto: ProtoHdr {
            exch_id,
            proto_id: PROTO_ID_INTERACTION_MODEL,
            proto_opcode: IM_INVOKE_REQUEST,
            initiator: true,
            reliable: true,
            ack_ctr: None,
        },
        payload,
    }
}

#[test]
fn plain_hdr_codec_roundtrip() {
    let h = PlainHdr { sess_id: 0x1234, ctr: 0xDEADBEEF, src_nodeid: Some(0x1122334455667788), dst_nodeid: None };
    let mut bytes: Vec<u8> = Vec::new();
    plain_hdr_encode(&h, &mut bytes);
    // flags: only the source node id announced
    assert_eq!(
        bytes,
        vec![0x04, 0x34, 0x12, 0x00, 0xEF, 0xBE, 0xAD, 0xDE, 0x88, 0x77, 0x66, 0x55, 0x44, 0x33, 0x22, 0x11]
    );
    let (decoded, used) = plain_hdr_decode(&bytes).unwrap();
    assert_eq!(decoded, h);
    assert_eq!(used, bytes.len());
}

#[test]
fn proto_hdr_codec_roundtrip() {
    let h = ProtoHdr {
        exch_id: 0xBEEF,
        proto_id: PROTO_ID_INTERACTION_MODEL,
        proto_opcode: IM_INVOKE_RESPONSE,
        initiator: true,
        reliable: true,
        ack_ctr: Some(7),
    };
    let mut bytes: Vec<u8> = Vec::new();
    proto_hdr_encode(&h, &mut bytes);
    // flags: initiator, acknowledgement present, reliable
    assert_eq!(bytes, vec![0x07, 0x09, 0xEF, 0xBE, 0x01, 0x00, 0x07, 0x00, 0x00, 0x00]);
    let (decoded, used) = proto_hdr_decode(&bytes, 0).unwrap();
    assert_eq!(decoded, h);
    assert_eq!(used, bytes.len());
}

#[test]
fn truncated_headers_are_invalid() {
    assert_eq!(plain_hdr_decode(&vec![0u8; 4]), Err(Error::Invalid));
    assert_eq!(proto_hdr_decode(&vec![0u8; 3], 0), Err(Error::Invalid));
    // announced node ids but no bytes for them
    assert_eq!(plain_hdr_decode(&vec![0x05, 0, 0, 0, 0, 0, 0, 0]), Err(Error::Invalid));
}

#[test]
fn message_codec_roundtrip() {
    let p = request_packet(7, 1, vec![1, 2, 3, 4]);
    let bytes = p.encode();
    let decoded = Packet::decode(&bytes, PEER).unwrap();
    assert_eq!(decoded.plain, p.plain);
    assert_eq!(decoded.proto, p.proto);
    assert_eq!(decoded.payload, p.payload);
    assert_eq!(decoded.peer, PEER);
}

#[test]
fn opcode_descriptor_classifies() {
    assert_eq!(
        OpCodeDescriptor::from(0x10),
        OpCodeDescriptor::SecureChannel(ScOpCode::MRPStandAloneAck)
    );
    // the Secure Channel claims 0x01 before the Interaction Model can
    assert_eq!(
        OpCodeDescriptor::from(0x01),
        OpCodeDescriptor::SecureChannel(ScOpCode::MsgCounterSyncResp)
    );
    assert_eq!(
        OpCodeDescriptor::from(0x08),
        OpCodeDescriptor::InteractionModel(ImOpCode::InvokeRequest)
    );
    assert_eq!(OpCodeDescriptor::from(0xFF), OpCodeDescriptor::Unknown(0xFF));
}

#[test]
fn session_counters_and_duplicates() {
    let mut mgr = SessionMgr::new();
    let si = mgr.add_session(1, 100, PEER, None, false).unwrap();
    assert_eq!(mgr.recv(si, 1), Ok(()));
    assert_eq!(mgr.recv(si, 1), Err(Error::Duplicate));
    assert_eq!(mgr.recv(si, 2), Ok(()));
    let (sess_id, ctr) = mgr.pre_send(si);
    assert_eq!((sess_id, ctr), (100, 1));
    let (_, ctr) = mgr.pre_send(si);
    assert_eq!(ctr, 2);
    assert!(mgr.post_recv(1, PEER).is_ok());
    assert_eq!(mgr.post_recv(9, PEER), Err(Error::NoSession));
}

#[test]
fn mrp_owes_and_clears_acks() {
    let mut mrp = ReliableMessage::new();
    let reliable_rx = request_packet(7, 5, vec![]).proto;
    mrp.recv(&reliable_rx, 5, 1000).unwrap();
    // the ack idle timer has not elapsed yet
    assert!(!mrp.is_ack_ready(1000));
    assert!(mrp.is_ack_ready(1100));

    // sending embeds the owed ack and tracks the reliable message
    let mut tx_proto = ProtoHdr {
        exch_id: 7,
        proto_id: PROTO_ID_INTERACTION_MODEL,
        proto_opcode: IM_INVOKE_RESPONSE,
        initiator: false,
        reliable: true,
        ack_ctr: None,
    };
    mrp.pre_send(&mut tx_proto, 1, 1100).unwrap();
    assert_eq!(tx_proto.ack_ctr, Some(5));
    assert!(!mrp.is_ack_ready(5000));
    assert!(mrp.is_retrans_due(1400));

    // the peer's ack must name our counter
    let bad_ack = ProtoHdr { ack_ctr: Some(9), ..reliable_rx };
    let mut probe = mrp;
    assert_eq!(probe.recv(&bad_ack, 6, 1200), Err(Error::Invalid));
    let good_ack = ProtoHdr { ack_ctr: Some(1), reliable: false, ..reliable_rx };
    mrp.recv(&good_ack, 6, 1200).unwrap();
    assert!(!mrp.is_retrans_due(9999));
}

#[test]
fn pipe_hands_one_datagram_over() {
    let mut pipe = Pipe::new(64);
    assert!(pipe.consume().is_none());
    assert!(pipe.supply(&vec![1, 2, 3], PEER));
    // a full pipe refuses: at most one datagram in flight
    assert!(!pipe.supply(&vec![4], PEER));
    assert!(pipe.take_supplied());
    assert!(!pipe.take_supplied());
    let (data, addr) = pipe.consume().unwrap();
    assert_eq!(data, vec![1, 2, 3]);
    assert_eq!(addr, PEER);
    assert!(pipe.take_consumed());
    assert!(pipe.supply(&vec![4], PEER));
}

#[test]
fn new_exchange_construction_and_reply() {
    let mut matter = engine_with_session();
    let mut bufs = PacketBuffers::new();

    let rx = request_packet(7, 1, vec![1, 2, 3]);
    let id = matter.process_rx(&mut bufs, &rx, 0).unwrap().unwrap();
    assert_eq!(id.id, 7);
    assert_eq!(matter.exchanges.len(), 1);

    // a handler takes the exchange on slot 0 and the packet lands there
    matter.bind_exchange(&id, 0).unwrap();
    matter.complete_construction(&id, &rx, &mut bufs).unwrap();
    assert!(matter.take_notification(&id));
    assert!(!matter.take_notification(&id));
    assert_eq!(bufs.rx[0].payload, vec![1, 2, 3]);

    // the handler leaves its final reply in its egress slot
    bufs.tx[0] = Packet {
        peer: PEER,
        plain: PlainHdr { sess_id: 0, ctr: 0, src_nodeid: None, dst_nodeid: None },
        proto: ProtoHdr {
            exch_id: 0,
            proto_id: PROTO_ID_INTERACTION_MODEL,
            proto_opcode: IM_INVOKE_RESPONSE,
            initiator: false,
            reliable: true,
            ack_ctr: None,
        },
        payload: vec![9, 9],
    };
    matter.exchange_complete(&id).unwrap();

    let mut dest = Packet::new();
    assert!(matter.pull_tx(&bufs, &mut dest, 0).unwrap());
    assert_eq!(dest.proto.exch_id, 7);
    assert!(!dest.proto.initiator);
    assert_eq!(dest.plain.sess_id, 100);
    assert_eq!(dest.plain.ctr, 1);
    // the reply acknowledges the peer's counter on the way out
    assert_eq!(dest.proto.ack_ctr, Some(1));
    assert_eq!(dest.payload, vec![9, 9]);
    assert_eq!(dest.peer, PEER);

    // the peer's bare ack finishes the exchange
    let ack = Packet {
        peer: PEER,
        plain: PlainHdr { sess_id: 1, ctr: 2, src_nodeid: None, dst_nodeid: None },
        proto: ProtoHdr {
            exch_id: 7,
            proto_id: PROTO_ID_SECURE_CHANNEL,
            proto_opcode: OPCODE_MRP_STANDALONE_ACK,
            initiator: true,
            reliable: false,
            ack_ctr: Some(1),
        },
        payload: vec![],
    };
    assert_eq!(matter.process_rx(&mut bufs, &ack, 0).unwrap(), None);
    assert!(matter.take_notification(&id));
    assert!(matches!(matter.exchanges[0].state, ExchangeState::Closed));

    // the next pull purges it and finds nothing to send
    let mut dest2 = Packet::new();
    assert!(!matter.pull_tx(&bufs, &mut dest2, 0).unwrap());
    assert_eq!(matter.exchanges.len(), 0);
}

#[test]
fn in_order_packets_reuse_the_exchange() {
    // a conversation of several packets holds exactly one exchange record
    let mut matter = engine_with_session();
    let mut bufs = PacketBuffers::new();

    let rx1 = request_packet(7, 1, vec![1]);
    let id = matter.process_rx(&mut bufs, &rx1, 0).unwrap().unwrap();
    matter.bind_exchange(&id, 0).unwrap();
    matter.complete_construction(&id, &rx1, &mut bufs).unwrap();

    // the handler sends and awaits a reply
    bufs.tx[0] = Packet {
        peer: PEER,
        plain: PlainHdr { sess_id: 0, ctr: 0, src_nodeid: None, dst_nodeid: None },
        proto: ProtoHdr {
            exch_id: 0,
            proto_id: PROTO_ID_INTERACTION_MODEL,
            proto_opcode: IM_INVOKE_RESPONSE,
            initiator: false,
            reliable: true,
            ack_ctr: None,
        },
        payload: vec![2],
    };
    matter.exchange_send(&id).unwrap();
    let mut dest = Packet::new();
    assert!(matter.pull_tx(&bufs, &mut dest, 0).unwrap());
    assert!(matches!(
        matter.exchanges[0].state,
        ExchangeState::ExchangeRecv { tx_acknowledged: false }
    ));

    // the peer's reply acknowledges ours and lands in the same exchange
    let mut rx2 = request_packet(7, 2, vec![5]);
    rx2.proto.ack_ctr = Some(dest.plain.ctr);
    assert_eq!(matter.process_rx(&mut bufs, &rx2, 0).unwrap(), None);
    assert_eq!(matter.exchanges.len(), 1);
    assert_eq!(bufs.rx[0].payload, vec![5]);
    assert!(matches!(matter.exchanges[0].state, ExchangeState::Active));
    assert!(matter.take_notification(&id));
}

#[test]
fn duplicate_packet_only_nudges_the_sender() {
    let mut matter = engine_with_session();
    let mut bufs = PacketBuffers::new();

    let rx = request_packet(7, 1, vec![1]);
    let id = matter.process_rx(&mut bufs, &rx, 0).unwrap().unwrap();
    matter.bind_exchange(&id, 0).unwrap();
    matter.complete_construction(&id, &rx, &mut bufs).unwrap();
    matter.take_notification(&id);
    let state_before = matter.exchanges[0].state;
    assert!(!matter.take_send_notification());

    // the same counter again: dropped, nothing moves but the send nudge
    assert_eq!(matter.process_rx(&mut bufs, &rx, 0).unwrap(), None);
    assert!(matter.take_send_notification());
    assert_eq!(matter.exchanges.len(), 1);
    assert_eq!(matter.exchanges[0].state, state_before);
    assert!(!matter.take_notification(&id));
}

#[test]
fn unknown_session_and_exchange_errors() {
    let mut matter = engine_with_session();
    let mut bufs = PacketBuffers::new();

    let mut unknown_session = request_packet(7, 1, vec![]);
    unknown_session.plain.sess_id = 9;
    assert_eq!(matter.process_rx(&mut bufs, &unknown_session, 0), Err(Error::NoSession));

    // a non-initiator packet cannot open an exchange
    let mut non_initiator = request_packet(7, 1, vec![]);
    non_initiator.proto.initiator = false;
    assert_eq!(matter.process_rx(&mut bufs, &non_initiator, 0), Err(Error::NoExchange));

    // a pure acknowledgement cannot open one either
    let mut pure_ack = request_packet(8, 2, vec![]);
    pure_ack.proto.ack_ctr = Some(1);
    assert_eq!(matter.process_rx(&mut bufs, &pure_ack, 0), Err(Error::Invalid));
}

#[test]
fn exchange_table_exhaustion() {
    let mut matter = engine_with_session();
    let mut bufs = PacketBuffers::new();
    for k in 0..MAX_EXCHANGES {
        let rx = request_packet(k as u16, (k + 1) as u32, vec![]);
        assert!(matter.process_rx(&mut bufs, &rx, 0).unwrap().is_some());
    }
    let overflow = request_packet(100, 99, vec![]);
    assert_eq!(matter.process_rx(&mut bufs, &overflow, 0), Err(Error::NoSpace));
}

#[test]
fn no_two_exchanges_share_a_slot() {
    let mut matter = engine_with_session();
    let mut bufs = PacketBuffers::new();

    let rx1 = request_packet(1, 1, vec![]);
    let id1 = matter.process_rx(&mut bufs, &rx1, 0).unwrap().unwrap();
    let rx2 = request_packet(2, 2, vec![]);
    let id2 = matter.process_rx(&mut bufs, &rx2, 0).unwrap().unwrap();

    matter.bind_exchange(&id1, 3).unwrap();
    assert_eq!(matter.bind_exchange(&id2, 3), Err(Error::Invalid));
    matter.bind_exchange(&id2, 4).unwrap();
}

#[test]
fn owed_ack_goes_out_bare_after_idle() {
    let mut matter = engine_with_session();
    let mut bufs = PacketBuffers::new();

    let rx = request_packet(7, 1, vec![]);
    let id = matter.process_rx(&mut bufs, &rx, 1000).unwrap().unwrap();
    matter.bind_exchange(&id, 0).unwrap();
    matter.complete_construction(&id, &rx, &mut bufs).unwrap();

    // before the idle timer: nothing owes the wire anything
    let mut dest = Packet::new();
    assert!(!matter.pull_tx(&bufs, &mut dest, 1050).unwrap());

    // after it: a bare standalone ack, state untouched
    assert!(matter.pull_tx(&bufs, &mut dest, 1100).unwrap());
    assert_eq!(dest.proto.proto_id, PROTO_ID_SECURE_CHANNEL);
    assert_eq!(dest.proto.proto_opcode, OPCODE_MRP_STANDALONE_ACK);
    assert_eq!(dest.proto.ack_ctr, Some(1));
    assert!(!dest.proto.reliable);
    assert!(dest.payload.is_empty());
    assert!(matches!(matter.exchanges[0].state, ExchangeState::Active));

    // the ack is owed once
    assert!(!matter.pull_tx(&bufs, &mut dest, 1200).unwrap());
}

#[test]
fn reliable_message_retransmits_then_gives_up() {
    let mut matter = engine_with_session();
    let mut bufs = PacketBuffers::new();

    let rx = request_packet(7, 1, vec![]);
    let id = matter.process_rx(&mut bufs, &rx, 0).unwrap().unwrap();
    matter.bind_exchange(&id, 0).unwrap();
    matter.complete_construction(&id, &rx, &mut bufs).unwrap();

    bufs.tx[0] = Packet {
        peer: PEER,
        plain: PlainHdr { sess_id: 0, ctr: 0, src_nodeid: None, dst_nodeid: None },
        proto: ProtoHdr {
            exch_id: 0,
            proto_id: PROTO_ID_INTERACTION_MODEL,
            proto_opcode: IM_INVOKE_RESPONSE,
            initiator: false,
            reliable: true,
            ack_ctr: None,
        },
        payload: vec![2],
    };
    matter.exchange_send(&id).unwrap();
    let mut dest = Packet::new();
    let mut now: u64 = 0;
    assert!(matter.pull_tx(&bufs, &mut dest, now).unwrap());
    let first_ctr = dest.plain.ctr;

    // each elapsed deadline retransmits, with a fresh counter
    for _ in 0..MRP_MAX_RETRIES {
        now += 300;
        assert!(matter.pull_tx(&bufs, &mut dest, now).unwrap());
        assert_eq!(dest.payload, vec![2]);
        assert!(dest.plain.ctr > first_ctr);
    }

    // out of retries: the exchange closes instead of sending
    now += 300;
    assert!(!matter.pull_tx(&bufs, &mut dest, now).unwrap());
    assert!(matches!(matter.exchanges[0].state, ExchangeState::Closed));
    assert!(matter.take_notification(&id));
}

#[test]
fn reset_transport_clears_tables() {
    let mut matter = engine_with_session();
    let mut bufs = PacketBuffers::new();
    let rx = request_packet(7, 1, vec![]);
    matter.process_rx(&mut bufs, &rx, 0).unwrap();
    assert_eq!(matter.exchanges.len(), 1);

    matter.reset_transport();
    assert_eq!(matter.exchanges.len(), 0);
    // the session is gone too: the same packet now has no home
    assert_eq!(matter.process_rx(&mut bufs, &rx, 0), Err(Error::NoSession));
}

#[test]
fn run_buffers_partition_by_slot() {
    let bufs = RunBuffers::new();
    assert_eq!(bufs.run_bufs.tx.len(), MAX_EXCHANGES);
    assert_eq!(bufs.run_bufs.rx.len(), MAX_EXCHANGES);
    assert_eq!(bufs.run_bufs.sx.len(), MAX_EXCHANGES);
}

#[test]
fn session_table_exhaustion() {
    let mut mgr = SessionMgr::new();
    for k in 0..rs_matter::session::MAX_SESSIONS {
        mgr.add_session(k as u16, 100, PEER, None, false).unwrap();
    }
    assert_eq!(mgr.len(), rs_matter::session::MAX_SESSIONS);
    assert_eq!(mgr.add_session(999, 100, PEER, None, false), Err(Error::NoSpace));
    assert_eq!(mgr.session_at(0).id, 0);
}

#[test]
fn empty_node_resolves_nothing() {
    let node = rs_matter::dm::Node::new();
    assert_eq!(node.attr_value(0, 1, 2), None);
    assert_eq!(node.cluster_data_ver(0, 1), None);
    assert_eq!(node.find_endpoint(0), None);
}
