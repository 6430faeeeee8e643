//! The TCP segment value type: construction, parsing, serialization and the
//! flag predicates.

use crate::addr::Ipv4Address;
use crate::flags;
use crate::checksum::internet_checksum;
use crate::model::{
    checksum_input, control_segment, header_byte, header_bytes, hi8_of16, lo8_of16,
    pseudo_header_bytes, segment_bytes, spec_parse, wire_bytes, wire_checksum, HeaderView,
    TcpView,
};
use vstd::prelude::*;

verus! {

/// Every field of a TCP header, plus the option bytes and the payload this
/// layer will append.  The checksum field is a stored placeholder: it is
/// recomputed whenever the segment is serialized.
#[derive(Clone, Debug)]
pub struct TcpHeader {
    pub source: u16,
    pub destination: u16,
    pub sequence: u32,
    pub acknowledgement: u32,
    pub data_offset: u8,
    pub reserved: u8,
    pub flags: u8,
    pub window: u16,
    pub checksum: u16,
    pub urgent_ptr: u16,
    pub options: Vec<u8>,
    pub payload: Vec<u8>,
}

impl View for TcpHeader {
    type V = HeaderView;

    open spec fn view(&self) -> HeaderView {
        HeaderView {
            source: self.source,
            destination: self.destination,
            sequence: self.sequence,
            acknowledgement: self.acknowledgement,
            data_offset: self.data_offset,
            reserved: self.reserved,
            flags: self.flags,
            window: self.window,
            checksum: self.checksum,
            urgent_ptr: self.urgent_ptr,
            options: self.options@,
            payload: self.payload@,
        }
    }
}

/// A TCP segment: the header plus the two IPv4 endpoint addresses, which
/// only the pseudo-header checksum needs.
#[derive(Clone, Debug)]
pub struct Tcp {
    pub layer: TcpHeader,
    pub src: Ipv4Address,
    pub dst: Ipv4Address,
}

impl View for Tcp {
    type V = TcpView;

    open spec fn view(&self) -> TcpView {
        TcpView { layer: self.layer@, src: self.src, dst: self.dst }
    }
}

/// Serialization failure: the destination buffer cannot hold the segment.
/// Nothing is written when this is returned.
#[derive(Clone, Copy, PartialEq, Eq, Structural, Debug)]
pub enum TcpError {
    BufferTooSmall,
}

/// The closed set of layer tags the enclosing packet framework composes.
#[derive(Clone, Copy, PartialEq, Eq, Structural, Debug)]
pub enum LayerType {
    Ethernet,
    Ipv4,
    Tcp,
    Udp,
}

impl Tcp {
    /// Builds a plain ACK segment: data offset 5, no options, no payload,
    /// full window, zero checksum placeholder.  All control-segment
    /// constructors derive from this shape.
    pub fn new_ack(
        src_ip_addr: Ipv4Address,
        dst_ip_addr: Ipv4Address,
        src: u16,
        dst: u16,
        sequence: u32,
        acknowledgement: u32,
    ) -> (r: Tcp)
        ensures
            r@ == control_segment(
                src_ip_addr,
                dst_ip_addr,
                src,
                dst,
                sequence,
                acknowledgement,
                flags::ACK,
            ),
            r@.wf(),
            r@.is_ack(),
            !r@.is_syn() && !r@.is_rst() && !r@.is_fin(),
    {
        let r = Tcp {
            layer: TcpHeader {
                source: src,
                destination: dst,
                sequence,
                acknowledgement,
                data_offset: 5,
                reserved: 0,
                flags: flags::ACK,
                window: 65535,
                checksum: 0,
                urgent_ptr: 0,
                options: Vec::new(),
                payload: Vec::new(),
            },
            src: src_ip_addr,
            dst: dst_ip_addr,
        };
        proof {
            assert(r@ =~= control_segment(
                src_ip_addr,
                dst_ip_addr,
                src,
                dst,
                sequence,
                acknowledgement,
                flags::ACK,
            ));
            assert(16u8 & 16u8 != 0 && 16u8 & 2u8 == 0 && 16u8 & 4u8 == 0 && 16u8 & 1u8
                == 0) by (bit_vector);
        }
        r
    }

    /// Builds a SYN-ACK segment: the ACK shape with the SYN bit added.
    pub fn new_ack_syn(
        src_ip_addr: Ipv4Address,
        dst_ip_addr: Ipv4Address,
        src: u16,
        dst: u16,
        sequence: u32,
        acknowledgement: u32,
    ) -> (r: Tcp)
        ensures
            r@ == control_segment(
                src_ip_addr,
                dst_ip_addr,
                src,
                dst,
                sequence,
                acknowledgement,
                flags::ACK | flags::SYN,
            ),
            r@.wf(),
            r@.is_ack() && r@.is_syn(),
            !r@.is_rst() && !r@.is_fin(),
    {
        let mut r = Tcp::new_ack(src_ip_addr, dst_ip_addr, src, dst, sequence, acknowledgement);
        r.layer.flags = flags::ACK | flags::SYN;
        proof {
            assert(r@ =~= control_segment(
                src_ip_addr,
                dst_ip_addr,
                src,
                dst,
                sequence,
                acknowledgement,
                flags::ACK | flags::SYN,
            ));
            assert((16u8 | 2u8) & 16u8 != 0 && (16u8 | 2u8) & 2u8 != 0 && (16u8 | 2u8) & 4u8 == 0
                && (16u8 | 2u8) & 1u8 == 0) by (bit_vector);
        }
        r
    }

    /// Builds an RST segment: the ACK shape with the flags replaced by RST
    /// alone — the minimal reset signal.  Callers wanting RST+ACK construct
    /// and mutate directly.
    pub fn new_rst(
        src_ip_addr: Ipv4Address,
        dst_ip_addr: Ipv4Address,
        src: u16,
        dst: u16,
        sequence: u32,
        acknowledgement: u32,
    ) -> (r: Tcp)
        ensures
            r@ == control_segment(
                src_ip_addr,
                dst_ip_addr,
                src,
                dst,
                sequence,
                acknowledgement,
                flags::RST,
            ),
            r@.wf(),
            r@.is_rst() && r@.is_rst_or_fin(),
            !r@.is_ack() && !r@.is_syn() && !r@.is_fin(),
    {
        let mut r = Tcp::new_ack(src_ip_addr, dst_ip_addr, src, dst, sequence, acknowledgement);
        r.layer.flags = flags::RST;
        proof {
            assert(r@ =~= control_segment(
                src_ip_addr,
                dst_ip_addr,
                src,
                dst,
                sequence,
                acknowledgement,
                flags::RST,
            ));
            assert(4u8 & 4u8 != 0 && 4u8 & 16u8 == 0 && 4u8 & 2u8 == 0 && 4u8 & 1u8
                == 0) by (bit_vector);
        }
        r
    }

    /// Wraps an already-built header and the two endpoint addresses, without
    /// validation: another component has assembled the header.
    pub fn from(layer: TcpHeader, src: Ipv4Address, dst: Ipv4Address) -> (r: Tcp)
        ensures
            r@ == (TcpView { layer: layer@, src, dst }),
    {
        Tcp { layer, src, dst }
    }

    /// The source IP address of the segment.
    pub fn get_src_ip_addr(&self) -> (r: Ipv4Address)
        ensures
            r == self@.src,
    {
        self.src
    }

    /// The destination IP address of the segment.
    pub fn get_dst_ip_addr(&self) -> (r: Ipv4Address)
        ensures
            r == self@.dst,
    {
        self.dst
    }

    /// The source port.
    pub fn get_src(&self) -> (r: u16)
        ensures
            r == self@.layer.source,
    {
        self.layer.source
    }

    /// The destination port.
    pub fn get_dst(&self) -> (r: u16)
        ensures
            r == self@.layer.destination,
    {
        self.layer.destination
    }

    /// The sequence number.
    pub fn get_sequence(&self) -> (r: u32)
        ensures
            r == self@.layer.sequence,
    {
        self.layer.sequence
    }

    /// The acknowledgement number.
    pub fn get_acknowledgement(&self) -> (r: u32)
        ensures
            r == self@.layer.acknowledgement,
    {
        self.layer.acknowledgement
    }

    /// Whether the ACK bit is set.
    pub fn is_ack(&self) -> (r: bool)
        ensures
            r == self@.is_ack(),
    {
        self.layer.flags & flags::ACK != 0
    }

    /// Whether the RST bit is set.
    pub fn is_rst(&self) -> (r: bool)
        ensures
            r == self@.is_rst(),
    {
        self.layer.flags & flags::RST != 0
    }

    /// Whether the SYN bit is set.
    pub fn is_syn(&self) -> (r: bool)
        ensures
            r == self@.is_syn(),
    {
        self.layer.flags & flags::SYN != 0
    }

    /// Whether the FIN bit is set.
    pub fn is_fin(&self) -> (r: bool)
        ensures
            r == self@.is_fin(),
    {
        self.layer.flags & flags::FIN != 0
    }

    /// Whether the segment tears a connection down: RST or FIN (or both) —
    /// true exactly when `is_rst() || is_fin()`, whatever the other flags.
    pub fn is_rst_or_fin(&self) -> (r: bool)
        ensures
            r == self@.is_rst_or_fin(),
            r == (self@.is_rst() || self@.is_fin()),
    {
        self.is_rst() || self.is_fin()
    }

    /// The layer tag the enclosing packet framework dispatches on.
    pub fn get_type(&self) -> (r: LayerType)
        ensures
            r == LayerType::Tcp,
    {
        LayerType::Tcp
    }

    /// Total wire size of the segment: `4 * data_offset` header bytes plus
    /// the payload — computed from the stored offset whether or not a later
    /// serialization fixes the offset up, so callers can pre-size buffers.
    pub fn get_size(&self) -> (r: usize)
        requires
            self@.size() <= usize::MAX,
        ensures
            r == self@.size(),
    {
        4 * (self.layer.data_offset as usize) + self.layer.payload.len()
    }

    /// Parses an on-wire TCP segment, with `src` and `dst` attached for
    /// later checksum computation.  Every field is copied verbatim — no
    /// checksum validation, no rejection of odd flag combinations or of an
    /// inconsistent data offset.  Returns `None` exactly when the buffer is
    /// shorter than the header it declares; the payload is deliberately left
    /// empty, since the payload boundary is the enclosing layer's to slice.
    pub fn parse(packet: &Vec<u8>, src: Ipv4Address, dst: Ipv4Address) -> (r: Option<Tcp>)
        ensures
            (r is Some) == (spec_parse(packet@, src, dst) is Some),
            r matches Some(seg) ==> Some(seg@) == spec_parse(packet@, src, dst),
    {
        if packet.len() < 20 {
            return None;
        }
        let off: u8 = packet[12] / 16;
        let header_len: usize = if 4 * (off as usize) < 20 {
            20
        } else {
            4 * (off as usize)
        };
        if packet.len() < header_len {
            return None;
        }
        let mut options: Vec<u8> = Vec::new();
        let mut i: usize = 20;
        while i < header_len
            invariant
                20 <= i <= header_len,
                header_len <= packet@.len(),
                options@ == packet@.subrange(20, i as int),
            decreases header_len - i,
        {
            options.push(packet[i]);
            proof {
                assert(packet@.subrange(20, i + 1) =~= packet@.subrange(20, i as int).push(
                    packet@[i as int],
                ));
            }
            i = i + 1;
        }
        let seg = Tcp {
            layer: TcpHeader {
                source: read_be16(packet[0], packet[1]),
                destination: read_be16(packet[2], packet[3]),
                sequence: read_be32(packet[4], packet[5], packet[6], packet[7]),
                acknowledgement: read_be32(packet[8], packet[9], packet[10], packet[11]),
                data_offset: off,
                reserved: packet[12] % 16,
                flags: packet[13],
                window: read_be16(packet[14], packet[15]),
                checksum: read_be16(packet[16], packet[17]),
                urgent_ptr: read_be16(packet[18], packet[19]),
                options,
                payload: Vec::new(),
            },
            src,
            dst,
        };
        proof {
            let parsed = spec_parse(packet@, src, dst);
            assert(parsed is Some);
            assert(seg@ =~= parsed->Some_0);
        }
        Some(seg)
    }
}

impl Tcp {
    /// Serializes the segment into the front of `buffer` using the stored
    /// data offset, always recomputing the checksum over the pseudo-header
    /// and the bytes being written.  Fails with `BufferTooSmall` — writing
    /// nothing — exactly when the buffer is shorter than the segment.
    pub fn serialize(&self, buffer: &mut Vec<u8>) -> (r: Result<usize, TcpError>)
        requires
            self@.wf(),
            self@.size() <= 0xFFFF,
        ensures
            old(buffer)@.len() < self@.size() ==> r == Err::<usize, TcpError>(
                TcpError::BufferTooSmall,
            ) && final(buffer)@ == old(buffer)@,
            old(buffer)@.len() >= self@.size() ==> {
                &&& r == Ok::<usize, TcpError>(self@.size() as usize)
                &&& final(buffer)@.len() == old(buffer)@.len()
                &&& final(buffer)@.subrange(0, self@.size()) == wire_bytes(self@)
                &&& final(buffer)@.skip(self@.size()) == old(buffer)@.skip(self@.size())
            },
    {
        proof {
            assert(self@.with_data_offset(self.layer.data_offset) =~= self@);
        }
        self.serialize_with_offset(buffer, self.layer.data_offset)
    }

    /// Serializes like `serialize`, but first recomputes the data offset
    /// from the actual header length — 20 fixed bytes plus the options —
    /// for segments whose options changed after construction or parsing.
    /// The hint argument is not consulted: the offset is recomputed from
    /// the stored option bytes alone.
    pub fn serialize_n(&self, buffer: &mut Vec<u8>, _n: usize) -> (r: Result<usize, TcpError>)
        requires
            self@.layer.options.len() % 4 == 0,
            self@.layer.options.len() <= 40,
            self@.layer.reserved <= 15,
            self@.fixed_up().size() <= 0xFFFF,
        ensures
            old(buffer)@.len() < self@.fixed_up().size() ==> r == Err::<usize, TcpError>(
                TcpError::BufferTooSmall,
            ) && final(buffer)@ == old(buffer)@,
            old(buffer)@.len() >= self@.fixed_up().size() ==> {
                &&& r == Ok::<usize, TcpError>(self@.fixed_up().size() as usize)
                &&& final(buffer)@.len() == old(buffer)@.len()
                &&& final(buffer)@.subrange(0, self@.fixed_up().size()) == wire_bytes(
                    self@.fixed_up(),
                )
                &&& final(buffer)@.skip(self@.fixed_up().size()) == old(buffer)@.skip(
                    self@.fixed_up().size(),
                )
            },
    {
        let off: u8 = ((20 + self.layer.options.len()) / 4) as u8;
        proof {
            assert(self@.fixed_up() == self@.with_data_offset(off));
            assert(4 * (off as int) == 20 + self@.layer.options.len());
        }
        self.serialize_with_offset(buffer, off)
    }

    /// The shared serialization algorithm, writing with `off` as the data
    /// offset: size check first, then the header, options and payload with
    /// a zero checksum field, then the freshly computed checksum into bytes
    /// 16 and 17.
    fn serialize_with_offset(&self, buffer: &mut Vec<u8>, off: u8) -> (r: Result<
        usize,
        TcpError,
    >)
        requires
            self@.with_data_offset(off).wf(),
            self@.with_data_offset(off).size() <= 0xFFFF,
        ensures
            old(buffer)@.len() < self@.with_data_offset(off).size() ==> r == Err::<
                usize,
                TcpError,
            >(TcpError::BufferTooSmall) && final(buffer)@ == old(buffer)@,
            old(buffer)@.len() >= self@.with_data_offset(off).size() ==> {
                &&& r == Ok::<usize, TcpError>(self@.with_data_offset(off).size() as usize)
                &&& final(buffer)@.len() == old(buffer)@.len()
                &&& final(buffer)@.subrange(0, self@.with_data_offset(off).size()) == wire_bytes(
                    self@.with_data_offset(off),
                )
                &&& final(buffer)@.skip(self@.with_data_offset(off).size()) == old(
                    buffer,
                )@.skip(self@.with_data_offset(off).size())
            },
    {
        let ghost t = self@.with_data_offset(off);
        let ghost h = t.layer;
        let total: usize = 4 * (off as usize) + self.layer.payload.len();
        if buffer.len() < total {
            return Err(TcpError::BufferTooSmall);
        }
        // The segment image, with a zero placeholder in the checksum field.
        let mut out: Vec<u8> = Vec::new();
        push_be16(&mut out, self.layer.source);
        push_be16(&mut out, self.layer.destination);
        push_be32(&mut out, self.layer.sequence);
        push_be32(&mut out, self.layer.acknowledgement);
        out.push(off * 16 + self.layer.reserved % 16);
        out.push(self.layer.flags);
        push_be16(&mut out, self.layer.window);
        out.push(0);
        out.push(0);
        push_be16(&mut out, self.layer.urgent_ptr);
        proof {
            assert(out@.len() == 20);
            assert forall|j: int| 0 <= j < 20 implies out@[j] == header_byte(h, 0, j) by {
                assert(out@[12] == crate::model::offset_byte(h.data_offset, h.reserved));
            }
        }
        let mut i: usize = 0;
        while i < self.layer.options.len()
            invariant
                i <= self.layer.options@.len(),
                out@.len() == 20 + i,
                h == self@.with_data_offset(off).layer,
                forall|j: int| 0 <= j < 20 ==> out@[j] == header_byte(h, 0, j),
                forall|j: int| 20 <= j < out@.len() ==> out@[j] == h.options[j - 20],
            decreases self.layer.options@.len() - i,
        {
            out.push(self.layer.options[i]);
            i = i + 1;
        }
        proof {
            assert(out@ =~= header_bytes(h, 0));
        }
        let mut p: usize = 0;
        while p < self.layer.payload.len()
            invariant
                p <= self.layer.payload@.len(),
                h == self@.with_data_offset(off).layer,
                out@ == header_bytes(h, 0) + h.payload.subrange(0, p as int),
            decreases self.layer.payload@.len() - p,
        {
            out.push(self.layer.payload[p]);
            proof {
                assert(header_bytes(h, 0) + h.payload.subrange(0, p + 1) =~= (header_bytes(h, 0)
                    + h.payload.subrange(0, p as int)).push(h.payload[p as int]));
            }
            p = p + 1;
        }
        proof {
            assert(out@ =~= segment_bytes(h, 0));
            assert(out@.len() == t.size());
        }
        // The checksum input: the IPv4 pseudo-header, then the image above.
        let len16: u16 = total as u16;
        let mut ckin: Vec<u8> = Vec::new();
        ckin.push(self.src.o0);
        ckin.push(self.src.o1);
        ckin.push(self.src.o2);
        ckin.push(self.src.o3);
        ckin.push(self.dst.o0);
        ckin.push(self.dst.o1);
        ckin.push(self.dst.o2);
        ckin.push(self.dst.o3);
        ckin.push(0);
        ckin.push(6);
        push_be16(&mut ckin, len16);
        proof {
            assert(ckin@ =~= pseudo_header_bytes(t.src, t.dst, t.size() as u16));
        }
        let out_len = out.len();
        let mut k: usize = 0;
        while k < out_len
            invariant
                k <= out_len,
                out_len == out@.len(),
                ckin@ == pseudo_header_bytes(t.src, t.dst, t.size() as u16) + out@.subrange(
                    0,
                    k as int,
                ),
            decreases out_len - k,
        {
            ckin.push(out[k]);
            proof {
                assert(out@.subrange(0, k + 1) =~= out@.subrange(0, k as int).push(
                    out@[k as int],
                ));
                assert(ckin@ =~= pseudo_header_bytes(t.src, t.dst, t.size() as u16)
                    + out@.subrange(0, k + 1));
            }
            k = k + 1;
        }
        proof {
            assert(out@.subrange(0, out@.len() as int) =~= out@);
            assert(ckin@ =~= checksum_input(t));
        }
        let ck = internet_checksum(&ckin);
        out[16] = (ck / 256) as u8;
        out[17] = (ck % 256) as u8;
        proof {
            assert(out@ =~= segment_bytes(h, wire_checksum(t)));
        }
        let mut m: usize = 0;
        while m < total
            invariant
                m <= total,
                total == out@.len(),
                total == t.size(),
                buffer@.len() == old(buffer)@.len(),
                total <= buffer@.len(),
                out@ == segment_bytes(h, wire_checksum(t)),
                forall|j: int| 0 <= j < m ==> buffer@[j] == out@[j],
                forall|j: int| m <= j < buffer@.len() ==> buffer@[j] == old(buffer)@[j],
            decreases total - m,
        {
            let v = out[m];
            buffer[m] = v;
            m = m + 1;
        }
        proof {
            assert(buffer@.subrange(0, t.size()) =~= wire_bytes(t));
            assert(buffer@.skip(t.size()) =~= old(buffer)@.skip(t.size()));
        }
        Ok(total)
    }
    /// Renders the segment as one human-readable line — layer tag, ports,
    /// and the fixed-width flag summary — for logging and debugging only.
    pub fn describe(&self) -> (r: String)
        ensures
            r@ == crate::text::spec_describe(self@),
    {
        let mut s = String::from_str("TCP: ");
        crate::text::push_decimal(&mut s, self.layer.source);
        s.append(" -> ");
        crate::text::push_decimal(&mut s, self.layer.destination);
        s.append(" ");
        s.append("[");
        s.append("-");
        if self.is_ack() {
            s.append("A");
        } else {
            s.append(".");
        }
        s.append("-");
        if self.is_rst() {
            s.append("R");
        } else {
            s.append(".");
        }
        if self.is_syn() {
            s.append("S");
        } else {
            s.append(".");
        }
        if self.is_fin() {
            s.append("F");
        } else {
            s.append(".");
        }
        s.append("]");
        proof {
            reveal_strlit("[");
            reveal_strlit("-");
            reveal_strlit("A");
            reveal_strlit("R");
            reveal_strlit("S");
            reveal_strlit("F");
            reveal_strlit(".");
            reveal_strlit("]");
            assert(s@ =~= crate::text::spec_describe(self@));
        }
        s
    }
}

/// Appends the two big-endian bytes of `x`.
fn push_be16(out: &mut Vec<u8>, x: u16)
    ensures
        final(out)@ == old(out)@ + seq![hi8_of16(x), lo8_of16(x)],
{
    out.push((x / 256) as u8);
    out.push((x % 256) as u8);
    proof {
        assert(out@ =~= old(out)@ + seq![hi8_of16(x), lo8_of16(x)]);
    }
}

/// Appends the four big-endian bytes of `x`.
fn push_be32(out: &mut Vec<u8>, x: u32)
    ensures
        final(out)@ == old(out)@ + seq![
            crate::model::byte_of32(x, 0),
            crate::model::byte_of32(x, 1),
            crate::model::byte_of32(x, 2),
            crate::model::byte_of32(x, 3),
        ],
{
    out.push((x / 0x1000000) as u8);
    out.push(((x / 0x10000) % 256) as u8);
    out.push(((x / 256) % 256) as u8);
    out.push((x % 256) as u8);
    proof {
        assert(out@ =~= old(out)@ + seq![
            crate::model::byte_of32(x, 0),
            crate::model::byte_of32(x, 1),
            crate::model::byte_of32(x, 2),
            crate::model::byte_of32(x, 3),
        ]);
    }
}

/// A 16-bit value from its two big-endian bytes.
fn read_be16(hi: u8, lo: u8) -> (r: u16)
    ensures
        r == crate::model::be16(hi, lo),
{
    (hi as u16) * 256 + (lo as u16)
}

/// A 32-bit value from its four big-endian bytes.
fn read_be32(b0: u8, b1: u8, b2: u8, b3: u8) -> (r: u32)
    ensures
        r == crate::model::be32(b0, b1, b2, b3),
{
    (b0 as u32) * 0x1000000 + (b1 as u32) * 0x10000 + (b2 as u32) * 256 + (b3 as u32)
}

} // verus!
