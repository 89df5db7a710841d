//! NetFlow version 5: the 24-byte packet header, the 48-byte flow record and
//! the packet that holds one header and `count` records.

use vstd::prelude::*;

use crate::reader::{
    after, read_u16, read_u32, read_u8, skip, u16_at, u32_at, u8_at, DecodeError,
};
use crate::time::{add_seconds, shifted, within_span, UtcTime};

verus! {

/// The version this format carries by construction.
pub const VERSION: u16 = 5;

/// Length of the packet header on the wire.
pub const HEADER_LEN: usize = 24;

/// Length of one flow record on the wire.
pub const FLOW_LEN: usize = 48;

/// Padding after a record's source port.
pub const FLOW_PAD1_LEN: usize = 1;

/// Padding at the end of a record.
pub const FLOW_PAD2_LEN: usize = 2;

/// An IPv4 address as its four octets, most significant first.
#[derive(Clone, Copy, Debug, PartialEq, Eq, Structural)]
pub struct Ipv4Addr(pub u8, pub u8, pub u8, pub u8);

impl Ipv4Addr {
    /// The address `a.b.c.d`.
    pub fn new(a: u8, b: u8, c: u8, d: u8) -> (r: Ipv4Addr)
        ensures
            r == Ipv4Addr(a, b, c, d),
    {
        Ipv4Addr(a, b, c, d)
    }

    /// The four octets, most significant first.
    pub fn octets(&self) -> (r: [u8; 4])
        ensures
            r@ == seq![self.0, self.1, self.2, self.3],
    {
        [self.0, self.1, self.2, self.3]
    }
}

/// The address whose network-order 32-bit value is `v`.
pub open spec fn ipv4_of(v: u32) -> Ipv4Addr {
    Ipv4Addr(
        (v / 16777216) as u8,
        ((v / 65536) % 256) as u8,
        ((v / 256) % 256) as u8,
        (v % 256) as u8,
    )
}

/// Splits a 32-bit value read in network order into the four octets of an
/// address.
pub fn ipv4_from_u32(v: u32) -> (r: Ipv4Addr)
    ensures
        r == ipv4_of(v),
{
    Ipv4Addr(
        (v / 16777216) as u8,
        ((v / 65536) % 256) as u8,
        ((v / 256) % 256) as u8,
        (v % 256) as u8,
    )
}


/// The packet header.
#[derive(Clone, Copy, Debug, PartialEq, Eq, Structural)]
pub struct V5Header {
    /// Always `VERSION`, whatever the wire says.
    pub version: u16,
    /// Number of flow records that follow the header.
    pub count: u16,
    /// Device uptime at export, the anchor of the records' `first` and `last`.
    pub sys_uptime: u32,
    pub unix_secs: u32,
    pub unix_nsecs: u32,
    pub flow_sequence: u32,
    pub engine_type: u8,
    pub engine_id: u8,
    pub sampling_interval: u16,
    /// The export instant: `unix_secs` and `unix_nsecs` as a UTC instant.
    pub datetime: UtcTime,
}

/// The header that the first 24 bytes of `s` describe.
pub open spec fn header_of(s: Seq<u8>) -> V5Header {
    V5Header {
        version: VERSION,
        count: u16_at(s, 2),
        sys_uptime: u32_at(s, 4),
        unix_secs: u32_at(s, 8),
        unix_nsecs: u32_at(s, 12),
        flow_sequence: u32_at(s, 16),
        engine_type: u8_at(s, 20),
        engine_id: u8_at(s, 21),
        sampling_interval: u16_at(s, 22),
        datetime: UtcTime { secs: u32_at(s, 8) as i64, nanos: u32_at(s, 12) },
    }
}

impl V5Header {
    /// Decodes the header at the start of `bytes` and returns what follows it.
    /// The version on the wire is read and not kept.
    pub fn from_bytes(bytes: &[u8]) -> (r: Result<(&[u8], V5Header), DecodeError>)
        ensures
            match r {
                Ok((rest, h)) => {
                    &&& bytes@.len() >= HEADER_LEN
                    &&& h == header_of(bytes@)
                    &&& h.version == VERSION
                    &&& rest@ == after(bytes@, HEADER_LEN as int)
                    &&& rest@.len() == bytes@.len() - HEADER_LEN
                },
                Err(e) => bytes@.len() < HEADER_LEN && e == DecodeError::InsufficientBytes,
            },
    {
        let (rest, _version) = read_u16(bytes)?;
        let (rest, count) = read_u16(rest)?;
        let (rest, sys_uptime) = read_u32(rest)?;
        let (rest, unix_secs) = read_u32(rest)?;
        let (rest, unix_nsecs) = read_u32(rest)?;
        let (rest, flow_sequence) = read_u32(rest)?;
        let (rest, engine_type) = read_u8(rest)?;
        let (rest, engine_id) = read_u8(rest)?;
        let (rest, sampling_interval) = read_u16(rest)?;
        let header = V5Header {
            version: VERSION,
            count,
            sys_uptime,
            unix_secs,
            unix_nsecs,
            flow_sequence,
            engine_type,
            engine_id,
            sampling_interval,
            datetime: UtcTime::new(unix_secs as i64, unix_nsecs),
        };
        assert(header == header_of(bytes@));
        Ok((rest, header))
    }
}


/// One flow record. The two padding regions of the wire format are not kept.
#[derive(Clone, Copy, Debug, PartialEq, Eq, Structural)]
pub struct V5Flow {
    pub ipv4_src_addr: Ipv4Addr,
    pub ipv4_dst_addr: Ipv4Addr,
    pub next_hop: Ipv4Addr,
    pub input: u16,
    pub output: u16,
    pub d_packets: u32,
    pub d_octets: u32,
    /// Device uptime when the flow began; compare only with the `sys_uptime`
    /// of the header of the same packet.
    pub first: u32,
    /// Device uptime when the flow's last packet was seen.
    pub last: u32,
    pub src_port: u16,
    pub dst_port: u16,
    pub tcp_flags: u8,
    pub prot: u8,
    pub tos: u8,
    pub src_as: u16,
    pub dst_as: u16,
    pub src_mask: u8,
    pub dst_mask: u8,
}

/// The flow record that the first 48 bytes of `s` describe.
pub open spec fn flow_of(s: Seq<u8>) -> V5Flow {
    V5Flow {
        ipv4_src_addr: ipv4_of(u32_at(s, 0)),
        ipv4_dst_addr: ipv4_of(u32_at(s, 4)),
        next_hop: ipv4_of(u32_at(s, 8)),
        input: u16_at(s, 12),
        output: u16_at(s, 14),
        d_packets: u32_at(s, 16),
        d_octets: u32_at(s, 20),
        first: u32_at(s, 24),
        last: u32_at(s, 28),
        src_port: u16_at(s, 32),
        dst_port: u16_at(s, 35),
        tcp_flags: u8_at(s, 37),
        prot: u8_at(s, 38),
        tos: u8_at(s, 39),
        src_as: u16_at(s, 40),
        dst_as: u16_at(s, 42),
        src_mask: u8_at(s, 44),
        dst_mask: u8_at(s, 45),
    }
}

impl V5Flow {
    /// Decodes the flow record at the start of `bytes` and returns what
    /// follows it, past the trailing padding.
    pub fn from_bytes(bytes: &[u8]) -> (r: Result<(&[u8], V5Flow), DecodeError>)
        ensures
            match r {
                Ok((rest, f)) => {
                    &&& bytes@.len() >= FLOW_LEN
                    &&& f == flow_of(bytes@)
                    &&& rest@ == after(bytes@, FLOW_LEN as int)
                    &&& rest@.len() == bytes@.len() - FLOW_LEN
                },
                Err(e) => bytes@.len() < FLOW_LEN && e == DecodeError::InsufficientBytes,
            },
    {
        let (rest, ipv4_src_addr) = read_u32(bytes)?;
        let (rest, ipv4_dst_addr) = read_u32(rest)?;
        let (rest, next_hop) = read_u32(rest)?;
        let (rest, input) = read_u16(rest)?;
        let (rest, output) = read_u16(rest)?;
        let (rest, d_packets) = read_u32(rest)?;
        let (rest, d_octets) = read_u32(rest)?;
        let (rest, first) = read_u32(rest)?;
        let (rest, last) = read_u32(rest)?;
        let (rest, src_port) = read_u16(rest)?;
        let rest = skip(rest, FLOW_PAD1_LEN)?;
        let (rest, dst_port) = read_u16(rest)?;
        let (rest, tcp_flags) = read_u8(rest)?;
        let (rest, prot) = read_u8(rest)?;
        let (rest, tos) = read_u8(rest)?;
        let (rest, src_as) = read_u16(rest)?;
        let (rest, dst_as) = read_u16(rest)?;
        let (rest, src_mask) = read_u8(rest)?;
        let (rest, dst_mask) = read_u8(rest)?;
        let rest = skip(rest, FLOW_PAD2_LEN)?;
        let flow = V5Flow {
            ipv4_src_addr: ipv4_from_u32(ipv4_src_addr),
            ipv4_dst_addr: ipv4_from_u32(ipv4_dst_addr),
            next_hop: ipv4_from_u32(next_hop),
            input,
            output,
            d_packets,
            d_octets,
            first,
            last,
            src_port,
            dst_port,
            tcp_flags,
            prot,
            tos,
            src_as,
            dst_as,
            src_mask,
            dst_mask,
        };
        assert(flow == flow_of(bytes@));
        Ok((rest, flow))
    }
}


impl V5Flow {
    /// The instants at which the flow began and ended: the header's export
    /// instant moved by `first - sys_uptime` and by `last - sys_uptime`
    /// seconds, which is negative for a flow seen before the export.
    ///
    /// Where the export instant has fewer nanoseconds than a second and lies
    /// within the span, as for every decoded header whose `unix_nsecs` is
    /// below one second, the result is always there and exact. Otherwise
    /// chrono decides, and `None` means it could not represent an instant.
    pub fn when(&self, header: &V5Header) -> (r: Option<(UtcTime, UtcTime)>)
        ensures
            within_span(header.datetime) ==> r == Some(
                (
                    shifted(header.datetime, self.first - header.sys_uptime),
                    shifted(header.datetime, self.last - header.sys_uptime),
                ),
            ),
    {
        let start = add_seconds(header.datetime, (self.first as i64) - (header.sys_uptime as i64));
        let end = add_seconds(header.datetime, (self.last as i64) - (header.sys_uptime as i64));
        match (start, end) {
            (Some(start), Some(end)) => Some((start, end)),
            _ => None,
        }
    }
}

/// A decoded packet: its header and its flow records in wire order.
#[derive(Debug, PartialEq)]
pub struct V5 {
    pub header: V5Header,
    pub flows: Vec<V5Flow>,
}

/// Bytes that the packet at the start of `s` occupies, as its header says.
pub open spec fn packet_len(s: Seq<u8>) -> int {
    HEADER_LEN + FLOW_LEN * header_of(s).count
}

/// Whether `s` starts with a whole packet.
pub open spec fn packet_fits(s: Seq<u8>) -> bool {
    s.len() >= HEADER_LEN && s.len() >= packet_len(s)
}

/// The `i`-th flow record of the packet at the start of `s`.
pub open spec fn flow_at(s: Seq<u8>, i: int) -> V5Flow {
    flow_of(after(s, HEADER_LEN + FLOW_LEN * i))
}

/// The flow records of the packet at the start of `s`, in wire order.
pub open spec fn flows_of(s: Seq<u8>) -> Seq<V5Flow> {
    Seq::new(header_of(s).count as nat, |i: int| flow_at(s, i))
}

impl V5 {
    /// Decodes the packet at the start of `bytes`, its header and exactly
    /// `count` records, and returns what follows it, where a next packet of
    /// the same stream may start. No partial packet is ever returned.
    pub fn from_bytes(bytes: &[u8]) -> (r: Result<(&[u8], V5), DecodeError>)
        ensures
            match r {
                Ok((rest, p)) => {
                    &&& packet_fits(bytes@)
                    &&& p.header == header_of(bytes@)
                    &&& p.flows@ == flows_of(bytes@)
                    &&& rest@ == after(bytes@, packet_len(bytes@))
                },
                Err(e) => !packet_fits(bytes@) && e == DecodeError::InsufficientBytes,
            },
    {
        let (mut rest, header) = V5Header::from_bytes(bytes)?;
        let mut flows: Vec<V5Flow> = Vec::new();
        let mut k: u16 = 0;
        while k < header.count
            invariant
                bytes@.len() >= HEADER_LEN,
                header == header_of(bytes@),
                k <= header.count,
                HEADER_LEN + FLOW_LEN * k <= bytes@.len(),
                rest@ == after(bytes@, HEADER_LEN + FLOW_LEN * k),
                flows@.len() == k,
                forall|i: int| 0 <= i < k ==> flows@[i] == flow_at(bytes@, i),
            decreases header.count - k,
        {
            let (next, flow) = V5Flow::from_bytes(rest)?;
            assert(after(rest@, FLOW_LEN as int) =~= after(bytes@, HEADER_LEN + FLOW_LEN * (k + 1)));
            flows.push(flow);
            rest = next;
            k = k + 1;
        }
        assert(flows@ =~= flows_of(bytes@));
        Ok((rest, V5 { header, flows }))
    }
}


/// A flow record depends on its 48 bytes alone.
proof fn lemma_flow_of_prefix(a: Seq<u8>, b: Seq<u8>)
    requires
        a.len() >= FLOW_LEN,
        b.len() >= FLOW_LEN,
        forall|k: int| 0 <= k < FLOW_LEN ==> a[k] == b[k],
    ensures
        flow_of(a) == flow_of(b),
{
}

/// Each address of a record is the four bytes of its field, in wire order:
/// bytes `c0 a8 01 2a` give `192.168.1.42`.
pub proof fn lemma_ipv4_octets(s: Seq<u8>, i: int)
    requires
        0 <= i,
        i + 4 <= s.len(),
    ensures
        ipv4_of(u32_at(s, i)) == Ipv4Addr(s[i], s[i + 1], s[i + 2], s[i + 3]),
{
    let (b0, b1, b2, b3) = (s[i], s[i + 1], s[i + 2], s[i + 3]);
    let v = b0 * 16777216 + b1 * 65536 + b2 * 256 + b3;
    assert(v / 16777216 == b0 && (v / 65536) % 256 == b1 && (v / 256) % 256 == b2 && v % 256
        == b3) by (nonlinear_arith)
        requires
            v == b0 * 16777216 + b1 * 65536 + b2 * 256 + b3,
            0 <= b0 < 256,
            0 <= b1 < 256,
            0 <= b2 < 256,
            0 <= b3 < 256,
    ;
}

/// A buffer that holds a header with `count = N` followed by exactly N flow
/// records decodes to N records, the i-th from the i-th 48-byte block, and
/// leaves nothing behind.
pub proof fn lemma_packet_shape(s: Seq<u8>)
    requires
        s.len() >= HEADER_LEN,
        s.len() == packet_len(s),
    ensures
        packet_fits(s),
        flows_of(s).len() == header_of(s).count,
        forall|i: int|
            0 <= i < header_of(s).count ==> #[trigger] flows_of(s)[i] == flow_of(
                s.subrange(HEADER_LEN + FLOW_LEN * i, HEADER_LEN + FLOW_LEN * i + FLOW_LEN),
            ),
        after(s, packet_len(s)).len() == 0,
{
    assert forall|i: int| 0 <= i < header_of(s).count implies #[trigger] flows_of(s)[i]
        == flow_of(
        s.subrange(HEADER_LEN + FLOW_LEN * i, HEADER_LEN + FLOW_LEN * i + FLOW_LEN),
    ) by {
        let start = HEADER_LEN + FLOW_LEN * i;
        assert(start + FLOW_LEN <= s.len());
        lemma_flow_of_prefix(
            after(s, start),
            s.subrange(start, start + FLOW_LEN),
        );
    }
}

/// Two packets back to back: decoding the pair yields the first packet, and
/// what remains is exactly the second, ready to be decoded in turn.
pub proof fn lemma_concatenation(head: Seq<u8>, tail: Seq<u8>)
    requires
        head.len() >= HEADER_LEN,
        head.len() == packet_len(head),
    ensures
        packet_fits(head + tail),
        header_of(head + tail) == header_of(head),
        flows_of(head + tail) == flows_of(head),
        after(head + tail, packet_len(head + tail)) == tail,
{
    let s = head + tail;
    assert(header_of(s) == header_of(head));
    assert forall|i: int| 0 <= i < header_of(head).count implies flows_of(s)[i] == flows_of(
        head,
    )[i] by {
        let start = HEADER_LEN + FLOW_LEN * i;
        assert(start + FLOW_LEN <= head.len());
        lemma_flow_of_prefix(after(s, start), after(head, start));
    }
    assert(flows_of(s) =~= flows_of(head));
    assert(after(s, packet_len(s)) =~= tail);
}

} // verus!
