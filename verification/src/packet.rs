//! Packets and the wire codecs of the two Matter message headers.
//!
//! A message on the wire is the plain header, then the protocol header,
//! then the payload. The plain header names the session and carries the
//! message counter; the protocol header names the exchange, the protocol
//! and its opcode, and carries the reliability and acknowledgement flags.
//! In a deployment the protocol header and the payload travel encrypted;
//! the ciphering is out of scope here, so the codecs read and write the
//! headers in the clear and the session layer accounts for the counters.
//!
//! Layout, all integers little-endian:
//! - plain: flags (1), session id (2), security flags (1), counter (4),
//!   then the source and destination node ids (8 each) where the flags
//!   announce them (bit 2 the source, bit 0 the destination);
//! - protocol: exchange flags (1: bit 0 initiator, bit 1 acknowledgement
//!   present, bit 2 reliable), opcode (1), exchange id (2), protocol id
//!   (2), then the acknowledged counter (4) where announced.

use vstd::prelude::*;

use crate::error::Error;

verus! {

/// Size of one egress buffer.
pub const MAX_TX_BUF_SIZE: usize = 1280;

/// Size of one ingress buffer.
pub const MAX_RX_BUF_SIZE: usize = 1583;

/// Size of one status/auxiliary buffer.
pub const MAX_RX_STATUS_BUF_SIZE: usize = 100;

/// Protocol id of the Secure Channel protocol.
pub const PROTO_ID_SECURE_CHANNEL: u16 = 0x0000;

/// Protocol id of the Interaction Model protocol.
pub const PROTO_ID_INTERACTION_MODEL: u16 = 0x0001;

/// Opcode of the bare MRP acknowledgement on the Secure Channel protocol.
pub const OPCODE_MRP_STANDALONE_ACK: u8 = 0x10;

/// A peer's address: an IP (v4 mapped into v6) and a port.
#[derive(Clone, Copy, Debug, PartialEq, Eq, Structural)]
pub struct Address {
    pub ip: u128,
    pub port: u16,
}

/// The plain (unencrypted) message header.
#[derive(Clone, Copy, Debug, PartialEq, Eq)]
pub struct PlainHdr {
    pub sess_id: u16,
    pub ctr: u32,
    pub src_nodeid: Option<u64>,
    pub dst_nodeid: Option<u64>,
}

/// The protocol (payload) message header.
#[derive(Clone, Copy, Debug, PartialEq, Eq)]
pub struct ProtoHdr {
    pub exch_id: u16,
    pub proto_id: u16,
    pub proto_opcode: u8,
    pub initiator: bool,
    pub reliable: bool,
    pub ack_ctr: Option<u32>,
}

impl ProtoHdr {
    /// Whether the message acknowledges one of ours.
    pub open spec fn spec_is_ack(self) -> bool {
        self.ack_ctr is Some
    }

    pub fn is_ack(&self) -> (r: bool)
        ensures
            r == self.spec_is_ack(),
    {
        self.ack_ctr.is_some()
    }

    pub fn is_initiator(&self) -> (r: bool)
        ensures
            r == self.initiator,
    {
        self.initiator
    }
}

/// The little-endian bytes of a 16-bit integer.
pub open spec fn spec_u16_le(x: u16) -> Seq<u8> {
    seq![(x & 0xFF) as u8, ((x >> 8) & 0xFF) as u8]
}

/// The little-endian bytes of a 32-bit integer.
pub open spec fn spec_u32_le(x: u32) -> Seq<u8> {
    seq![
        (x & 0xFF) as u8,
        ((x >> 8) & 0xFF) as u8,
        ((x >> 16) & 0xFF) as u8,
        ((x >> 24) & 0xFF) as u8,
    ]
}

/// The little-endian bytes of a 64-bit integer.
pub open spec fn spec_u64_le(x: u64) -> Seq<u8> {
    seq![
        (x & 0xFF) as u8,
        ((x >> 8) & 0xFF) as u8,
        ((x >> 16) & 0xFF) as u8,
        ((x >> 24) & 0xFF) as u8,
        ((x >> 32) & 0xFF) as u8,
        ((x >> 40) & 0xFF) as u8,
        ((x >> 48) & 0xFF) as u8,
        ((x >> 56) & 0xFF) as u8,
    ]
}

/// A 16-bit integer out of its little-endian bytes.
pub open spec fn spec_le_u16(b0: u8, b1: u8) -> u16 {
    (b0 as u16) | ((b1 as u16) << 8)
}

/// A 32-bit integer out of its little-endian bytes.
pub open spec fn spec_le_u32(b0: u8, b1: u8, b2: u8, b3: u8) -> u32 {
    (b0 as u32) | ((b1 as u32) << 8) | ((b2 as u32) << 16) | ((b3 as u32) << 24)
}

/// A 64-bit integer out of its little-endian bytes.
pub open spec fn spec_le_u64(b: Seq<u8>) -> u64
    recommends
        b.len() == 8,
{
    (b[0] as u64) | ((b[1] as u64) << 8) | ((b[2] as u64) << 16) | ((b[3] as u64) << 24) | (
    (b[4] as u64) << 32) | ((b[5] as u64) << 40) | ((b[6] as u64) << 48) | ((b[7] as u64) << 56)
}

/// Encoding then recomposing a 16-bit integer gives it back.
pub proof fn lemma_u16_le_roundtrip(x: u16)
    ensures
        spec_le_u16(spec_u16_le(x)[0], spec_u16_le(x)[1]) == x,
{
    assert(((x & 0xFF) as u8 as u16) | ((((x >> 8) & 0xFF) as u8 as u16) << 8) == x)
        by (bit_vector);
}

/// Encoding then recomposing a 32-bit integer gives it back.
pub proof fn lemma_u32_le_roundtrip(x: u32)
    ensures
        spec_le_u32(
            spec_u32_le(x)[0],
            spec_u32_le(x)[1],
            spec_u32_le(x)[2],
            spec_u32_le(x)[3],
        ) == x,
{
    assert(((x & 0xFF) as u8 as u32) | ((((x >> 8) & 0xFF) as u8 as u32) << 8) | ((((x >> 16)
        & 0xFF) as u8 as u32) << 16) | ((((x >> 24) & 0xFF) as u8 as u32) << 24) == x)
        by (bit_vector);
}

/// Encoding then recomposing a 64-bit integer gives it back.
pub proof fn lemma_u64_le_roundtrip(x: u64)
    ensures
        spec_le_u64(spec_u64_le(x)) == x,
{
    assert(((x & 0xFF) as u8 as u64) | ((((x >> 8) & 0xFF) as u8 as u64) << 8) | ((((x >> 16)
        & 0xFF) as u8 as u64) << 16) | ((((x >> 24) & 0xFF) as u8 as u64) << 24) | ((((x >> 32)
        & 0xFF) as u8 as u64) << 32) | ((((x >> 40) & 0xFF) as u8 as u64) << 40) | ((((x >> 48)
        & 0xFF) as u8 as u64) << 48) | ((((x >> 56) & 0xFF) as u8 as u64) << 56) == x)
        by (bit_vector);
}

fn push_u16_le(out: &mut Vec<u8>, x: u16)
    ensures
        final(out)@ == old(out)@ + spec_u16_le(x),
{
    out.push((x & 0xFF) as u8);
    out.push(((x >> 8) & 0xFF) as u8);
    proof {
        assert(final(out)@ =~= old(out)@ + spec_u16_le(x));
    }
}

fn push_u32_le(out: &mut Vec<u8>, x: u32)
    ensures
        final(out)@ == old(out)@ + spec_u32_le(x),
{
    out.push((x & 0xFF) as u8);
    out.push(((x >> 8) & 0xFF) as u8);
    out.push(((x >> 16) & 0xFF) as u8);
    out.push(((x >> 24) & 0xFF) as u8);
    proof {
        assert(final(out)@ =~= old(out)@ + spec_u32_le(x));
    }
}

fn push_u64_le(out: &mut Vec<u8>, x: u64)
    ensures
        final(out)@ == old(out)@ + spec_u64_le(x),
{
    out.push((x & 0xFF) as u8);
    out.push(((x >> 8) & 0xFF) as u8);
    out.push(((x >> 16) & 0xFF) as u8);
    out.push(((x >> 24) & 0xFF) as u8);
    out.push(((x >> 32) & 0xFF) as u8);
    out.push(((x >> 40) & 0xFF) as u8);
    out.push(((x >> 48) & 0xFF) as u8);
    out.push(((x >> 56) & 0xFF) as u8);
    proof {
        assert(final(out)@ =~= old(out)@ + spec_u64_le(x));
    }
}

/// The flags byte of a plain header.
pub open spec fn spec_plain_flags(h: PlainHdr) -> u8 {
    ((if h.src_nodeid is Some {
        4u8
    } else {
        0u8
    }) + (if h.dst_nodeid is Some {
        1u8
    } else {
        0u8
    })) as u8
}

/// The wire bytes of a plain header.
pub open spec fn spec_plain_hdr_bytes(h: PlainHdr) -> Seq<u8> {
    seq![spec_plain_flags(h)] + spec_u16_le(h.sess_id) + seq![0u8] + spec_u32_le(h.ctr) + (
    match h.src_nodeid {
        Some(n) => spec_u64_le(n),
        None => Seq::<u8>::empty(),
    }) + (match h.dst_nodeid {
        Some(n) => spec_u64_le(n),
        None => Seq::<u8>::empty(),
    })
}

/// The flags byte of a protocol header.
pub open spec fn spec_proto_flags(h: ProtoHdr) -> u8 {
    ((if h.initiator {
        1u8
    } else {
        0u8
    }) + (if h.ack_ctr is Some {
        2u8
    } else {
        0u8
    }) + (if h.reliable {
        4u8
    } else {
        0u8
    })) as u8
}

/// The wire bytes of a protocol header.
pub open spec fn spec_proto_hdr_bytes(h: ProtoHdr) -> Seq<u8> {
    seq![spec_proto_flags(h), h.proto_opcode] + spec_u16_le(h.exch_id) + spec_u16_le(h.proto_id)
        + (match h.ack_ctr {
        Some(c) => spec_u32_le(c),
        None => Seq::<u8>::empty(),
    })
}

/// Appends the plain header's wire bytes.
pub fn plain_hdr_encode(h: &PlainHdr, out: &mut Vec<u8>)
    ensures
        final(out)@ == old(out)@ + spec_plain_hdr_bytes(*h),
{
    let flags: u8 = (if h.src_nodeid.is_some() {
        4u8
    } else {
        0u8
    }) + (if h.dst_nodeid.is_some() {
        1u8
    } else {
        0u8
    });
    out.push(flags);
    push_u16_le(out, h.sess_id);
    out.push(0u8);
    push_u32_le(out, h.ctr);
    if let Some(n) = h.src_nodeid {
        push_u64_le(out, n);
    }
    if let Some(n) = h.dst_nodeid {
        push_u64_le(out, n);
    }
    proof {
        assert(final(out)@ =~= old(out)@ + spec_plain_hdr_bytes(*h));
    }
}

/// Appends the protocol header's wire bytes.
pub fn proto_hdr_encode(h: &ProtoHdr, out: &mut Vec<u8>)
    ensures
        final(out)@ == old(out)@ + spec_proto_hdr_bytes(*h),
{
    let flags: u8 = (if h.initiator {
        1u8
    } else {
        0u8
    }) + (if h.ack_ctr.is_some() {
        2u8
    } else {
        0u8
    }) + (if h.reliable {
        4u8
    } else {
        0u8
    });
    out.push(flags);
    out.push(h.proto_opcode);
    push_u16_le(out, h.exch_id);
    push_u16_le(out, h.proto_id);
    if let Some(c) = h.ack_ctr {
        push_u32_le(out, c);
    }
    proof {
        assert(final(out)@ =~= old(out)@ + spec_proto_hdr_bytes(*h));
    }
}

/// What parsing a plain header from these bytes yields: the header and how
/// many bytes it took, or nothing where the bytes are short or carry flags
/// this codec never writes.
pub open spec fn spec_plain_hdr_decode(b: Seq<u8>) -> Option<(PlainHdr, int)> {
    if b.len() < 8 {
        None
    } else {
        let flags = b[0];
        if flags & 0xFA != 0 || b[3] != 0 {
            None
        } else {
            let has_src = flags & 0x04 == 0x04;
            let has_dst = flags & 0x01 == 0x01;
            let need = 8 + (if has_src {
                8int
            } else {
                0int
            }) + (if has_dst {
                8int
            } else {
                0int
            });
            if b.len() < need {
                None
            } else {
                let sess_id = spec_le_u16(b[1], b[2]);
                let ctr = spec_le_u32(b[4], b[5], b[6], b[7]);
                let src_nodeid = if has_src {
                    Some(spec_le_u64(b.subrange(8, 16)))
                } else {
                    None
                };
                let dst_off: int = if has_src {
                    16
                } else {
                    8
                };
                let dst_nodeid = if has_dst {
                    Some(spec_le_u64(b.subrange(dst_off, dst_off + 8)))
                } else {
                    None
                };
                Some((PlainHdr { sess_id, ctr, src_nodeid, dst_nodeid }, need))
            }
        }
    }
}

/// What parsing a protocol header from these bytes yields.
pub open spec fn spec_proto_hdr_decode(b: Seq<u8>) -> Option<(ProtoHdr, int)> {
    if b.len() < 6 {
        None
    } else {
        let flags = b[0];
        if flags & 0xF8 != 0 {
            None
        } else {
            let initiator = flags & 0x01 == 0x01;
            let has_ack = flags & 0x02 == 0x02;
            let reliable = flags & 0x04 == 0x04;
            let need = 6 + (if has_ack {
                4int
            } else {
                0int
            });
            if b.len() < need {
                None
            } else {
                let proto_opcode = b[1];
                let exch_id = spec_le_u16(b[2], b[3]);
                let proto_id = spec_le_u16(b[4], b[5]);
                let ack_ctr = if has_ack {
                    Some(spec_le_u32(b[6], b[7], b[8], b[9]))
                } else {
                    None
                };
                Some(
                    (
                        ProtoHdr { exch_id, proto_id, proto_opcode, initiator, reliable, ack_ctr },
                        need,
                    ),
                )
            }
        }
    }
}

/// Parses a plain header from the front of the buffer.
pub fn plain_hdr_decode(buf: &Vec<u8>) -> (r: Result<(PlainHdr, usize), Error>)
    ensures
        match r {
            Ok((h, used)) => spec_plain_hdr_decode(buf@) == Some((h, used as int)),
            Err(e) => e == Error::Invalid && spec_plain_hdr_decode(buf@) is None,
        },
{
    if buf.len() < 8 {
        return Err(Error::Invalid);
    }
    let flags = buf[0];
    if flags & 0xFA != 0 || buf[3] != 0 {
        return Err(Error::Invalid);
    }
    let has_src = flags & 0x04 == 0x04;
    let has_dst = flags & 0x01 == 0x01;
    let need: usize = 8 + (if has_src {
        8
    } else {
        0
    }) + (if has_dst {
        8
    } else {
        0
    });
    if buf.len() < need {
        return Err(Error::Invalid);
    }
    let sess_id = (buf[1] as u16) | ((buf[2] as u16) << 8);
    let ctr = (buf[4] as u32) | ((buf[5] as u32) << 8) | ((buf[6] as u32) << 16) | ((
    buf[7] as u32) << 24);
    let mut off: usize = 8;
    let src_nodeid = if has_src {
        let n = read_u64_le(buf, off);
        proof {
            assert(buf@.subrange(8, 16) =~= Seq::new(8nat, |i: int| buf@[8 + i]));
        }
        off = off + 8;
        Some(n)
    } else {
        None
    };
    let dst_nodeid = if has_dst {
        let n = read_u64_le(buf, off);
        proof {
            assert(buf@.subrange(off as int, off as int + 8) =~= Seq::new(
                8nat,
                |i: int| buf@[off as int + i],
            ));
        }
        Some(n)
    } else {
        None
    };
    Ok((PlainHdr { sess_id, ctr, src_nodeid, dst_nodeid }, need))
}

fn read_u64_le(buf: &Vec<u8>, off: usize) -> (r: u64)
    requires
        off + 8 <= buf@.len(),
    ensures
        r == spec_le_u64(Seq::new(8nat, |i: int| buf@[off + i])),
{
    let blen = buf.len();
    proof {
        assert(off + 8 <= blen);
    }
    let r = (buf[off] as u64) | ((buf[off + 1] as u64) << 8) | ((buf[off + 2] as u64) << 16) | ((
    buf[off + 3] as u64) << 24) | ((buf[off + 4] as u64) << 32) | ((buf[off + 5] as u64) << 40) | ((
    buf[off + 6] as u64) << 48) | ((buf[off + 7] as u64) << 56);
    proof {
        let s = Seq::new(8nat, |i: int| buf@[off + i]);
        assert(s[0] == buf@[off as int]);
        assert(s[1] == buf@[off + 1]);
        assert(s[2] == buf@[off + 2]);
        assert(s[3] == buf@[off + 3]);
        assert(s[4] == buf@[off + 4]);
        assert(s[5] == buf@[off + 5]);
        assert(s[6] == buf@[off + 6]);
        assert(s[7] == buf@[off + 7]);
    }
    r
}

/// Parses a protocol header from the bytes at `off`.
pub fn proto_hdr_decode(buf: &Vec<u8>, off: usize) -> (r: Result<(ProtoHdr, usize), Error>)
    requires
        off <= buf@.len(),
    ensures
        match r {
            Ok((h, used)) => spec_proto_hdr_decode(buf@.skip(off as int)) == Some(
                (h, used as int),
            ),
            Err(e) => e == Error::Invalid && spec_proto_hdr_decode(buf@.skip(off as int)) is None,
        },
{
    let ghost b = buf@.skip(off as int);
    if buf.len() - off < 6 {
        return Err(Error::Invalid);
    }
    let flags = buf[off];
    proof {
        assert(b[0] == buf@[off as int]);
    }
    if flags & 0xF8 != 0 {
        return Err(Error::Invalid);
    }
    let initiator = flags & 0x01 == 0x01;
    let has_ack = flags & 0x02 == 0x02;
    let reliable = flags & 0x04 == 0x04;
    let need: usize = 6 + (if has_ack {
        4
    } else {
        0
    });
    if buf.len() - off < need {
        return Err(Error::Invalid);
    }
    let proto_opcode = buf[off + 1];
    let exch_id = (buf[off + 2] as u16) | ((buf[off + 3] as u16) << 8);
    let proto_id = (buf[off + 4] as u16) | ((buf[off + 5] as u16) << 8);
    let ack_ctr = if has_ack {
        Some(
            (buf[off + 6] as u32) | ((buf[off + 7] as u32) << 8) | ((buf[off + 8] as u32) << 16) | (
            (buf[off + 9] as u32) << 24),
        )
    } else {
        None
    };
    proof {
        assert(b[1] == buf@[off + 1]);
        assert(b[2] == buf@[off + 2]);
        assert(b[3] == buf@[off + 3]);
        assert(b[4] == buf@[off + 4]);
        assert(b[5] == buf@[off + 5]);
        if has_ack {
            assert(b[6] == buf@[off + 6]);
            assert(b[7] == buf@[off + 7]);
            assert(b[8] == buf@[off + 8]);
            assert(b[9] == buf@[off + 9]);
        }
    }
    Ok((ProtoHdr { exch_id, proto_id, proto_opcode, initiator, reliable, ack_ctr }, need))
}

/// Parsing what the plain-header encoder wrote gives the header back and
/// consumes exactly its bytes, whatever follows them.
pub proof fn lemma_plain_hdr_roundtrip(h: PlainHdr, rest: Seq<u8>)
    ensures
        spec_plain_hdr_decode(spec_plain_hdr_bytes(h) + rest) == Some(
            (h, spec_plain_hdr_bytes(h).len() as int),
        ),
{
    let enc = spec_plain_hdr_bytes(h);
    let b = enc + rest;
    let flags = spec_plain_flags(h);
    assert(b[0] == flags);
    if h.src_nodeid is Some {
        if h.dst_nodeid is Some {
            assert(flags == 5u8);
            assert(flags & 0xFA == 0 && flags & 0x04 == 0x04 && flags & 0x01 == 0x01)
                by (bit_vector)
                requires
                    flags == 5u8,
            ;
        } else {
            assert(flags == 4u8);
            assert(flags & 0xFA == 0 && flags & 0x04 == 0x04 && flags & 0x01 != 0x01)
                by (bit_vector)
                requires
                    flags == 4u8,
            ;
        }
    } else {
        if h.dst_nodeid is Some {
            assert(flags == 1u8);
            assert(flags & 0xFA == 0 && flags & 0x04 != 0x04 && flags & 0x01 == 0x01)
                by (bit_vector)
                requires
                    flags == 1u8,
            ;
        } else {
            assert(flags == 0u8);
            assert(flags & 0xFA == 0 && flags & 0x04 != 0x04 && flags & 0x01 != 0x01)
                by (bit_vector)
                requires
                    flags == 0u8,
            ;
        }
    }
    lemma_u16_le_roundtrip(h.sess_id);
    lemma_u32_le_roundtrip(h.ctr);
    assert(b[1] == spec_u16_le(h.sess_id)[0]);
    assert(b[2] == spec_u16_le(h.sess_id)[1]);
    assert(b[3] == 0u8);
    assert(b[4] == spec_u32_le(h.ctr)[0]);
    assert(b[5] == spec_u32_le(h.ctr)[1]);
    assert(b[6] == spec_u32_le(h.ctr)[2]);
    assert(b[7] == spec_u32_le(h.ctr)[3]);
    if let Some(n) = h.src_nodeid {
        lemma_u64_le_roundtrip(n);
        assert(b.subrange(8, 16) =~= spec_u64_le(n));
    }
    if let Some(n) = h.dst_nodeid {
        lemma_u64_le_roundtrip(n);
        let dst_off: int = if h.src_nodeid is Some {
            16
        } else {
            8
        };
        assert(b.subrange(dst_off, dst_off + 8) =~= spec_u64_le(n));
    }
}

/// Parsing what the protocol-header encoder wrote gives the header back and
/// consumes exactly its bytes, whatever follows them.
pub proof fn lemma_proto_hdr_roundtrip(h: ProtoHdr, rest: Seq<u8>)
    ensures
        spec_proto_hdr_decode(spec_proto_hdr_bytes(h) + rest) == Some(
            (h, spec_proto_hdr_bytes(h).len() as int),
        ),
{
    let enc = spec_proto_hdr_bytes(h);
    let b = enc + rest;
    let flags = spec_proto_flags(h);
    assert(b[0] == flags);
    assert(flags <= 7);
    assert(flags & 0xF8 == 0 && (flags & 0x01 == 0x01 <==> (flags == 1 || flags == 3 || flags == 5
        || flags == 7)) && (flags & 0x02 == 0x02 <==> (flags == 2 || flags == 3 || flags == 6
        || flags == 7)) && (flags & 0x04 == 0x04 <==> (flags == 4 || flags == 5 || flags == 6
        || flags == 7))) by (bit_vector)
        requires
            flags <= 7,
    ;
    lemma_u16_le_roundtrip(h.exch_id);
    lemma_u16_le_roundtrip(h.proto_id);
    assert(b[1] == h.proto_opcode);
    assert(b[2] == spec_u16_le(h.exch_id)[0]);
    assert(b[3] == spec_u16_le(h.exch_id)[1]);
    assert(b[4] == spec_u16_le(h.proto_id)[0]);
    assert(b[5] == spec_u16_le(h.proto_id)[1]);
    if let Some(c) = h.ack_ctr {
        lemma_u32_le_roundtrip(c);
        assert(b[6] == spec_u32_le(c)[0]);
        assert(b[7] == spec_u32_le(c)[1]);
        assert(b[8] == spec_u32_le(c)[2]);
        assert(b[9] == spec_u32_le(c)[3]);
    }
}

/// One message buffer with its parsed headers.
#[derive(Clone, Debug)]
pub struct Packet {
    pub peer: Address,
    pub plain: PlainHdr,
    pub proto: ProtoHdr,
    pub payload: Vec<u8>,
}

/// The mathematical shape of a packet.
#[verifier::ext_equal]
pub struct PacketView {
    pub peer: Address,
    pub plain: PlainHdr,
    pub proto: ProtoHdr,
    pub payload: Seq<u8>,
}

impl View for Packet {
    type V = PacketView;

    open spec fn view(&self) -> PacketView {
        PacketView {
            peer: self.peer,
            plain: self.plain,
            proto: self.proto,
            payload: self.payload@,
        }
    }
}

/// The wire bytes of a whole message.
pub open spec fn spec_message_bytes(p: PacketView) -> Seq<u8> {
    spec_plain_hdr_bytes(p.plain) + spec_proto_hdr_bytes(p.proto) + p.payload
}

impl Packet {
    /// An empty packet addressed nowhere.
    pub fn new() -> (p: Packet)
        ensures
            p@ == (PacketView {
                peer: Address { ip: 0, port: 0 },
                plain: PlainHdr { sess_id: 0, ctr: 0, src_nodeid: None, dst_nodeid: None },
                proto: ProtoHdr {
                    exch_id: 0,
                    proto_id: 0,
                    proto_opcode: 0,
                    initiator: false,
                    reliable: false,
                    ack_ctr: None,
                },
                payload: Seq::<u8>::empty(),
            }),
    {
        let p = Packet {
            peer: Address { ip: 0, port: 0 },
            plain: PlainHdr { sess_id: 0, ctr: 0, src_nodeid: None, dst_nodeid: None },
            proto: ProtoHdr {
                exch_id: 0,
                proto_id: 0,
                proto_opcode: 0,
                initiator: false,
                reliable: false,
                ack_ctr: None,
            },
            payload: Vec::new(),
        };
        proof {
            assert(p@.payload =~= Seq::<u8>::empty());
        }
        p
    }

    /// Copies another packet into this buffer.
    pub fn load(&mut self, src: &Packet)
        ensures
            final(self)@ == src@,
    {
        self.peer = src.peer;
        self.plain = src.plain;
        self.proto = src.proto;
        self.payload.clear();
        let mut i: usize = 0;
        while i < src.payload.len()
            invariant
                i <= src.payload@.len(),
                self.payload@ == src.payload@.take(i as int),
                self.peer == src.peer && self.plain == src.plain && self.proto == src.proto,
            decreases src.payload@.len() - i,
        {
            self.payload.push(src.payload[i]);
            proof {
                assert(self.payload@ =~= src.payload@.take(i as int + 1));
            }
            i = i + 1;
        }
        proof {
            assert(src.payload@.take(src.payload@.len() as int) =~= src.payload@);
            assert(self@ =~= src@);
        }
    }

    pub fn get_proto_id(&self) -> (r: u16)
        ensures
            r == self.proto.proto_id,
    {
        self.proto.proto_id
    }

    /// Encodes the message for the wire.
    pub fn encode(&self) -> (out: Vec<u8>)
        ensures
            out@ == spec_message_bytes(self@),
    {
        let mut out: Vec<u8> = Vec::new();
        plain_hdr_encode(&self.plain, &mut out);
        proto_hdr_encode(&self.proto, &mut out);
        let mut i: usize = 0;
        while i < self.payload.len()
            invariant
                i <= self.payload@.len(),
                out@ == spec_plain_hdr_bytes(self.plain) + spec_proto_hdr_bytes(self.proto)
                    + self.payload@.take(i as int),
            decreases self.payload@.len() - i,
        {
            out.push(self.payload[i]);
            proof {
                assert(out@ =~= spec_plain_hdr_bytes(self.plain) + spec_proto_hdr_bytes(self.proto)
                    + self.payload@.take(i as int + 1));
            }
            i = i + 1;
        }
        proof {
            assert(self.payload@.take(self.payload@.len() as int) =~= self.payload@);
            assert(out@ =~= spec_message_bytes(self@));
        }
        out
    }

    /// Parses a datagram into a packet from this peer: both headers, then
    /// the rest is the payload.
    pub fn decode(buf: &Vec<u8>, peer: Address) -> (r: Result<Packet, Error>)
        ensures
            match r {
                Ok(p) => ({
                    &&& spec_plain_hdr_decode(buf@) matches Some((ph, plen)) && (p@.plain == ph && (
                    spec_proto_hdr_decode(buf@.skip(plen)) matches Some((th, tlen)) && (p@.proto
                        == th && p@.payload == buf@.skip(plen + tlen))))
                    &&& p@.peer == peer
                }),
                Err(e) => e == Error::Invalid && (spec_plain_hdr_decode(buf@) is None || (
                spec_plain_hdr_decode(buf@) matches Some((ph, plen)) && spec_proto_hdr_decode(
                    buf@.skip(plen),
                ) is None)),
            },
    {
        let (plain, plen) = plain_hdr_decode(buf)?;
        let (proto, tlen) = proto_hdr_decode(buf, plen)?;
        let mut payload: Vec<u8> = Vec::new();
        let mut i: usize = plen + tlen;
        proof {
            assert(payload@ =~= buf@.skip(plen + tlen).take(0));
        }
        while i < buf.len()
            invariant
                plen + tlen <= i <= buf@.len(),
                payload@ == buf@.skip(plen as int + tlen as int).take(i - plen - tlen),
            decreases buf@.len() - i,
        {
            payload.push(buf[i]);
            proof {
                assert(payload@ =~= buf@.skip(plen as int + tlen as int).take(i + 1 - plen - tlen));
            }
            i = i + 1;
        }
        proof {
            assert(buf@.skip(plen as int + tlen as int).take(buf@.len() - plen - tlen) =~= buf@.skip(
                plen as int + tlen as int,
            ));
        }
        Ok(Packet { peer, plain, proto, payload })
    }
}

/// The Secure Channel opcodes this engine knows.
#[derive(Clone, Copy, Debug, PartialEq, Eq, Structural)]
pub enum ScOpCode {
    MsgCounterSyncReq,
    MsgCounterSyncResp,
    MRPStandAloneAck,
    PBKDFParamRequest,
    PBKDFParamResponse,
    PASEPake1,
    PASEPake2,
    PASEPake3,
    CASESigma1,
    CASESigma2,
    CASESigma3,
    CASESigma2Resume,
    StatusReport,
}

/// The Interaction Model opcodes.
#[derive(Clone, Copy, Debug, PartialEq, Eq, Structural)]
pub enum ImOpCode {
    StatusResponse,
    ReadRequest,
    SubscribeRequest,
    SubscribeResponse,
    ReportData,
    WriteRequest,
    WriteResponse,
    InvokeRequest,
    InvokeResponse,
    TimedRequest,
}

/// The Secure Channel opcode with this wire value, if any.
pub open spec fn spec_sc_opcode(v: u8) -> Option<ScOpCode> {
    match v {
        0x00 => Some(ScOpCode::MsgCounterSyncReq),
        0x01 => Some(ScOpCode::MsgCounterSyncResp),
        0x10 => Some(ScOpCode::MRPStandAloneAck),
        0x20 => Some(ScOpCode::PBKDFParamRequest),
        0x21 => Some(ScOpCode::PBKDFParamResponse),
        0x22 => Some(ScOpCode::PASEPake1),
        0x23 => Some(ScOpCode::PASEPake2),
        0x24 => Some(ScOpCode::PASEPake3),
        0x30 => Some(ScOpCode::CASESigma1),
        0x31 => Some(ScOpCode::CASESigma2),
        0x32 => Some(ScOpCode::CASESigma3),
        0x33 => Some(ScOpCode::CASESigma2Resume),
        0x40 => Some(ScOpCode::StatusReport),
        _ => None,
    }
}

/// The Interaction Model opcode with this wire value, if any.
pub open spec fn spec_im_opcode(v: u8) -> Option<ImOpCode> {
    match v {
        0x01 => Some(ImOpCode::StatusResponse),
        0x02 => Some(ImOpCode::ReadRequest),
        0x03 => Some(ImOpCode::SubscribeRequest),
        0x04 => Some(ImOpCode::SubscribeResponse),
        0x05 => Some(ImOpCode::ReportData),
        0x06 => Some(ImOpCode::WriteRequest),
        0x07 => Some(ImOpCode::WriteResponse),
        0x08 => Some(ImOpCode::InvokeRequest),
        0x09 => Some(ImOpCode::InvokeResponse),
        0x0A => Some(ImOpCode::TimedRequest),
        _ => None,
    }
}

pub fn sc_opcode_from(v: u8) -> (r: Option<ScOpCode>)
    ensures
        r == spec_sc_opcode(v),
{
    match v {
        0x00 => Some(ScOpCode::MsgCounterSyncReq),
        0x01 => Some(ScOpCode::MsgCounterSyncResp),
        0x10 => Some(ScOpCode::MRPStandAloneAck),
        0x20 => Some(ScOpCode::PBKDFParamRequest),
        0x21 => Some(ScOpCode::PBKDFParamResponse),
        0x22 => Some(ScOpCode::PASEPake1),
        0x23 => Some(ScOpCode::PASEPake2),
        0x24 => Some(ScOpCode::PASEPake3),
        0x30 => Some(ScOpCode::CASESigma1),
        0x31 => Some(ScOpCode::CASESigma2),
        0x32 => Some(ScOpCode::CASESigma3),
        0x33 => Some(ScOpCode::CASESigma2Resume),
        0x40 => Some(ScOpCode::StatusReport),
        _ => None,
    }
}

pub fn im_opcode_from(v: u8) -> (r: Option<ImOpCode>)
    ensures
        r == spec_im_opcode(v),
{
    match v {
        0x01 => Some(ImOpCode::StatusResponse),
        0x02 => Some(ImOpCode::ReadRequest),
        0x03 => Some(ImOpCode::SubscribeRequest),
        0x04 => Some(ImOpCode::SubscribeResponse),
        0x05 => Some(ImOpCode::ReportData),
        0x06 => Some(ImOpCode::WriteRequest),
        0x07 => Some(ImOpCode::WriteResponse),
        0x08 => Some(ImOpCode::InvokeRequest),
        0x09 => Some(ImOpCode::InvokeResponse),
        0x0A => Some(ImOpCode::TimedRequest),
        _ => None,
    }
}

/// An opcode byte classified: a Secure Channel opcode first, else an
/// Interaction Model opcode, else unknown.
#[derive(Clone, Copy, Debug, PartialEq, Eq, Structural)]
pub enum OpCodeDescriptor {
    SecureChannel(ScOpCode),
    InteractionModel(ImOpCode),
    Unknown(u8),
}

/// What classifying an opcode byte yields.
pub open spec fn spec_opcode_descriptor(v: u8) -> OpCodeDescriptor {
    match spec_sc_opcode(v) {
        Some(op) => OpCodeDescriptor::SecureChannel(op),
        None => match spec_im_opcode(v) {
            Some(op) => OpCodeDescriptor::InteractionModel(op),
            None => OpCodeDescriptor::Unknown(v),
        },
    }
}

impl From<u8> for OpCodeDescriptor {
    fn from(value: u8) -> (r: Self) {
        if let Some(opcode) = sc_opcode_from(value) {
            Self::SecureChannel(opcode)
        } else if let Some(opcode) = im_opcode_from(value) {
            Self::InteractionModel(opcode)
        } else {
            Self::Unknown(value)
        }
    }
}

impl vstd::std_specs::convert::FromSpecImpl<u8> for OpCodeDescriptor {
    open spec fn obeys_from_spec() -> bool {
        true
    }

    open spec fn from_spec(value: u8) -> Self {
        spec_opcode_descriptor(value)
    }
}

} // verus!

verus! {

/// A whole encoded message parses back into itself: the plain header, then
/// the protocol header, then the rest is exactly the payload.
pub proof fn lemma_message_roundtrip(p: PacketView)
    ensures
        ({
            let bytes = spec_message_bytes(p);
            let plen = spec_plain_hdr_bytes(p.plain).len() as int;
            let tlen = spec_proto_hdr_bytes(p.proto).len() as int;
            &&& spec_plain_hdr_decode(bytes) == Some((p.plain, plen))
            &&& spec_proto_hdr_decode(bytes.skip(plen)) == Some((p.proto, tlen))
            &&& bytes.skip(plen + tlen) == p.payload
        }),
{
    let bytes = spec_message_bytes(p);
    let pb = spec_plain_hdr_bytes(p.plain);
    let tb = spec_proto_hdr_bytes(p.proto);
    assert(bytes =~= pb + (tb + p.payload));
    lemma_plain_hdr_roundtrip(p.plain, tb + p.payload);
    assert(bytes.skip(pb.len() as int) =~= tb + p.payload);
    lemma_proto_hdr_roundtrip(p.proto, p.payload);
    assert(bytes.skip(pb.len() as int + tb.len() as int) =~= p.payload);
}

} // verus!
