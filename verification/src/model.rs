//! The mathematical model of a TCP segment and of its wire image.
//!
//! `HeaderView` and `TcpView` mirror the executable types field by field,
//! with byte strings abstracted to sequences.  The wire image is defined
//! byte-for-byte by `header_byte`, and `spec_parse` reads a byte string back
//! into a view; the round-trip between the two is proved in
//! `lemma_parse_inverts_serialize`.

use crate::addr::Ipv4Address;
use crate::checksum::checksum;
use vstd::prelude::*;

verus! {

/// The model of a TCP header: every field of the wire header, with the
/// option bytes and the payload as sequences.
#[verifier::ext_equal]
pub ghost struct HeaderView {
    pub source: u16,
    pub destination: u16,
    pub sequence: u32,
    pub acknowledgement: u32,
    pub data_offset: u8,
    pub reserved: u8,
    pub flags: u8,
    pub window: u16,
    pub checksum: u16,
    pub urgent_ptr: u16,
    pub options: Seq<u8>,
    pub payload: Seq<u8>,
}

/// The model of a segment: a header plus the two endpoint addresses the
/// pseudo-header checksum needs.
#[verifier::ext_equal]
pub ghost struct TcpView {
    pub layer: HeaderView,
    pub src: Ipv4Address,
    pub dst: Ipv4Address,
}

impl HeaderView {
    /// The data-model invariant: `data_offset` is a 4-bit count of 32-bit
    /// words covering exactly the fixed fields plus the option bytes, and
    /// `reserved` fits its 4 bits.
    pub open spec fn wf(self) -> bool {
        &&& 4 * self.data_offset == 20 + self.options.len()
        &&& self.data_offset <= 15
        &&& self.reserved <= 15
    }
}

impl TcpView {
    pub open spec fn wf(self) -> bool {
        self.layer.wf()
    }

    /// Total wire size: header length in bytes plus the payload length.
    pub open spec fn size(self) -> int {
        4 * self.data_offset() + self.layer.payload.len()
    }

    pub open spec fn data_offset(self) -> u8 {
        self.layer.data_offset
    }

    /// The same segment with another stored data offset.
    pub open spec fn with_data_offset(self, off: u8) -> TcpView {
        TcpView { layer: HeaderView { data_offset: off, ..self.layer }, ..self }
    }

    /// The segment as the length-fixup serialization entry point writes it:
    /// the data offset recomputed from the actual header bytes.
    pub open spec fn fixed_up(self) -> TcpView {
        self.with_data_offset(((20 + self.layer.options.len()) / 4) as u8)
    }

    pub open spec fn is_ack(self) -> bool {
        self.layer.flags & crate::flags::ACK != 0
    }

    pub open spec fn is_rst(self) -> bool {
        self.layer.flags & crate::flags::RST != 0
    }

    pub open spec fn is_syn(self) -> bool {
        self.layer.flags & crate::flags::SYN != 0
    }

    pub open spec fn is_fin(self) -> bool {
        self.layer.flags & crate::flags::FIN != 0
    }

    pub open spec fn is_rst_or_fin(self) -> bool {
        self.is_rst() || self.is_fin()
    }
}

/// The fixed-format control segment every named constructor returns: data
/// offset 5, no options, no payload, full window, zero checksum placeholder.
pub open spec fn control_segment(
    src_ip: Ipv4Address,
    dst_ip: Ipv4Address,
    src: u16,
    dst: u16,
    sequence: u32,
    acknowledgement: u32,
    flags: u8,
) -> TcpView {
    TcpView {
        layer: HeaderView {
            source: src,
            destination: dst,
            sequence,
            acknowledgement,
            data_offset: 5,
            reserved: 0,
            flags,
            window: 65535,
            checksum: 0,
            urgent_ptr: 0,
            options: Seq::empty(),
            payload: Seq::empty(),
        },
        src: src_ip,
        dst: dst_ip,
    }
}

/// The big-endian bytes of a 16-bit value.
pub open spec fn hi8_of16(x: u16) -> u8 {
    (x / 256) as u8
}

pub open spec fn lo8_of16(x: u16) -> u8 {
    (x % 256) as u8
}

/// A 16-bit value from its big-endian bytes.
pub open spec fn be16(hi: u8, lo: u8) -> u16 {
    (hi * 256 + lo) as u16
}

/// The four big-endian bytes of a 32-bit value, most significant first.
pub open spec fn byte_of32(x: u32, k: int) -> u8 {
    if k == 0 {
        (x / 0x1000000) as u8
    } else if k == 1 {
        ((x / 0x10000) % 256) as u8
    } else if k == 2 {
        ((x / 256) % 256) as u8
    } else {
        (x % 256) as u8
    }
}

/// A 32-bit value from its big-endian bytes.
pub open spec fn be32(b0: u8, b1: u8, b2: u8, b3: u8) -> u32 {
    (b0 * 0x1000000 + b1 * 0x10000 + b2 * 256 + b3) as u32
}

/// The packed byte holding the data offset (high 4 bits) and the reserved
/// bits (low 4 bits).
pub open spec fn offset_byte(off: u8, reserved: u8) -> u8 {
    (off * 16 + reserved % 16) as u8
}

/// Byte `i` of the serialized header (fixed fields, then options), with `ck`
/// in the checksum field.
pub open spec fn header_byte(h: HeaderView, ck: u16, i: int) -> u8 {
    if i == 0 {
        hi8_of16(h.source)
    } else if i == 1 {
        lo8_of16(h.source)
    } else if i == 2 {
        hi8_of16(h.destination)
    } else if i == 3 {
        lo8_of16(h.destination)
    } else if i < 8 {
        byte_of32(h.sequence, i - 4)
    } else if i < 12 {
        byte_of32(h.acknowledgement, i - 8)
    } else if i == 12 {
        offset_byte(h.data_offset, h.reserved)
    } else if i == 13 {
        h.flags
    } else if i == 14 {
        hi8_of16(h.window)
    } else if i == 15 {
        lo8_of16(h.window)
    } else if i == 16 {
        hi8_of16(ck)
    } else if i == 17 {
        lo8_of16(ck)
    } else if i == 18 {
        hi8_of16(h.urgent_ptr)
    } else if i == 19 {
        lo8_of16(h.urgent_ptr)
    } else {
        h.options[i - 20]
    }
}

/// The serialized header: 20 fixed bytes followed by the option bytes, with
/// `ck` in the checksum field.
pub open spec fn header_bytes(h: HeaderView, ck: u16) -> Seq<u8> {
    Seq::new((20 + h.options.len()) as nat, |i: int| header_byte(h, ck, i))
}

/// The serialized segment: header then payload.
pub open spec fn segment_bytes(h: HeaderView, ck: u16) -> Seq<u8> {
    header_bytes(h, ck) + h.payload
}

/// The 12-byte IPv4 pseudo-header the TCP checksum covers: both addresses, a
/// zero byte, the TCP protocol number 6, and the segment length.
pub open spec fn pseudo_header_bytes(src: Ipv4Address, dst: Ipv4Address, tcp_len: u16) -> Seq<
    u8,
> {
    seq![
        src.o0,
        src.o1,
        src.o2,
        src.o3,
        dst.o0,
        dst.o1,
        dst.o2,
        dst.o3,
        0u8,
        6u8,
        hi8_of16(tcp_len),
        lo8_of16(tcp_len),
    ]
}

/// The byte string the checksum is computed over: the pseudo-header, then
/// the segment with a zero checksum field.
pub open spec fn checksum_input(t: TcpView) -> Seq<u8> {
    pseudo_header_bytes(t.src, t.dst, t.size() as u16) + segment_bytes(t.layer, 0)
}

/// The checksum value serialization stores in the segment.
pub open spec fn wire_checksum(t: TcpView) -> u16 {
    checksum(checksum_input(t))
}

/// The complete wire image serialization produces: the segment bytes with
/// the freshly computed checksum in place.
pub open spec fn wire_bytes(t: TcpView) -> Seq<u8> {
    segment_bytes(t.layer, wire_checksum(t))
}

/// Parsing a byte string: `None` exactly when the buffer cannot hold the
/// header its own data-offset field declares; otherwise every header field
/// read verbatim, the implied option bytes attached, and — deliberately — an
/// empty payload: the payload boundary belongs to the enclosing layer, so
/// parse returns headers only.
pub open spec fn spec_parse(b: Seq<u8>, src: Ipv4Address, dst: Ipv4Address) -> Option<TcpView> {
    if b.len() < 20 {
        None
    } else {
        let off = b[12] / 16;
        let header_len = if 4 * off < 20 {
            20int
        } else {
            4 * off
        };
        if b.len() < header_len {
            None
        } else {
            Some(
                TcpView {
                    layer: HeaderView {
                        source: be16(b[0], b[1]),
                        destination: be16(b[2], b[3]),
                        sequence: be32(b[4], b[5], b[6], b[7]),
                        acknowledgement: be32(b[8], b[9], b[10], b[11]),
                        data_offset: off,
                        reserved: b[12] % 16,
                        flags: b[13],
                        window: be16(b[14], b[15]),
                        checksum: be16(b[16], b[17]),
                        urgent_ptr: be16(b[18], b[19]),
                        options: b.subrange(20, header_len),
                        payload: Seq::empty(),
                    },
                    src,
                    dst,
                },
            )
        }
    }
}

/// A 16-bit value survives the split into big-endian bytes.
pub proof fn lemma_be16_roundtrip(x: u16)
    ensures
        be16(hi8_of16(x), lo8_of16(x)) == x,
{
}

/// A 32-bit value survives the split into big-endian bytes.
pub proof fn lemma_be32_roundtrip(x: u32)
    ensures
        be32(byte_of32(x, 0), byte_of32(x, 1), byte_of32(x, 2), byte_of32(x, 3)) == x,
{
    assert(be32(byte_of32(x, 0), byte_of32(x, 1), byte_of32(x, 2), byte_of32(x, 3))
        == x) by (bit_vector);
}

/// The packed offset byte yields both halves back.
pub proof fn lemma_offset_byte_roundtrip(off: u8, reserved: u8)
    requires
        off <= 15,
    ensures
        offset_byte(off, reserved) / 16 == off,
        offset_byte(off, reserved) % 16 == reserved % 16,
{
}

/// Round trip: parsing a serialized segment with the same two addresses
/// reproduces the segment exactly, except for the two documented
/// asymmetries — the payload is left empty (parse returns headers only) and
/// the stored checksum placeholder is replaced by the checksum the wire
/// image actually carries.
pub proof fn lemma_parse_inverts_serialize(t: TcpView)
    requires
        t.wf(),
        t.size() <= 0xFFFF,
    ensures
        spec_parse(wire_bytes(t), t.src, t.dst) == Some(
            TcpView {
                layer: HeaderView {
                    checksum: wire_checksum(t),
                    payload: Seq::empty(),
                    ..t.layer
                },
                ..t
            },
        ),
{
    let h = t.layer;
    let ck = wire_checksum(t);
    let w = wire_bytes(t);
    let hb = header_bytes(h, ck);
    assert(hb.len() == 20 + h.options.len());
    assert(w.len() == hb.len() + h.payload.len());
    assert(forall|i: int| 0 <= i < hb.len() ==> w[i] == header_byte(h, ck, i));
    assert(4 * h.data_offset >= 20);
    lemma_offset_byte_roundtrip(h.data_offset, h.reserved);
    assert(w[12] / 16 == h.data_offset);
    assert(w[12] % 16 == h.reserved);
    let header_len = 4 * (h.data_offset as int);
    assert(w.len() >= header_len);
    lemma_be16_roundtrip(h.source);
    lemma_be16_roundtrip(h.destination);
    lemma_be32_roundtrip(h.sequence);
    lemma_be32_roundtrip(h.acknowledgement);
    lemma_be16_roundtrip(h.window);
    lemma_be16_roundtrip(ck);
    lemma_be16_roundtrip(h.urgent_ptr);
    assert(w.subrange(20, header_len) =~= h.options);
    let parsed = spec_parse(w, t.src, t.dst);
    assert(parsed is Some);
    assert(parsed->Some_0 =~= TcpView {
        layer: HeaderView { checksum: ck, payload: Seq::empty(), ..h },
        ..t
    });
}

} // verus!
