//! Serialization, parsing and the checksum, against independently computed
//! expected bytes.

use tcp_codec::checksum::internet_checksum;
use tcp_codec::{Ipv4Address, Tcp, TcpError, TcpHeader};

/// Reference internet checksum, written independently of the library: sum
/// the big-endian 16-bit words (odd trailing byte padded with zero), fold
/// the carries, complement.
fn ref_checksum(bytes: &[u8]) -> u16 {
    let mut sum: u64 = 0;
    let mut i = 0;
    while i + 1 < bytes.len() {
        sum += 256 * bytes[i] as u64 + bytes[i + 1] as u64;
        i += 2;
    }
    if i < bytes.len() {
        sum += 256 * bytes[i] as u64;
    }
    while sum > 0xFFFF {
        sum = (sum & 0xFFFF) + (sum >> 16);
    }
    !(sum as u16)
}

/// The pseudo-header for `len` TCP bytes between the two addresses.
fn pseudo(src: Ipv4Address, dst: Ipv4Address, len: u16) -> Vec<u8> {
    let (s0, s1, s2, s3) = src.octets();
    let (d0, d1, d2, d3) = dst.octets();
    vec![s0, s1, s2, s3, d0, d1, d2, d3, 0, 6, (len >> 8) as u8, len as u8]
}

#[test]
fn ack_scenario_exact_bytes() {
    let a = Ipv4Address::new(10, 0, 0, 1);
    let b = Ipv4Address::new(10, 0, 0, 2);
    let t = Tcp::new_ack(a, b, 1234, 80, 1000, 2000);
    let mut buf = vec![0u8; 20];
    assert_eq!(t.serialize(&mut buf), Ok(20));
    assert_eq!(&buf[0..2], &[4, 210]); // source port 1234
    assert_eq!(&buf[2..4], &[0, 80]); // destination port 80
    assert_eq!(&buf[4..8], &[0, 0, 3, 232]); // sequence 1000
    assert_eq!(&buf[8..12], &[0, 0, 7, 208]); // acknowledgement 2000
    assert_eq!(buf[12], 0x50); // data offset 5, reserved 0
    assert_eq!(buf[13], 16); // flags: ACK only
    assert_eq!(&buf[14..16], &[255, 255]); // window 65535
    assert_eq!(&buf[18..20], &[0, 0]); // urgent pointer
    // The checksum matches an independently computed pseudo-header checksum
    // over these exact bytes.
    let mut input = pseudo(a, b, 20);
    input.extend_from_slice(&buf);
    input[12 + 16] = 0;
    input[12 + 17] = 0;
    let expected = ref_checksum(&input);
    assert_eq!(&buf[16..18], &[(expected >> 8) as u8, expected as u8]);
    assert_eq!(internet_checksum(&input), expected);
}

#[test]
fn parse_scenario_reads_ack_back() {
    let a = Ipv4Address::new(10, 0, 0, 1);
    let b = Ipv4Address::new(10, 0, 0, 2);
    let t = Tcp::new_ack(a, b, 1234, 80, 1000, 2000);
    let mut buf = vec![0u8; 20];
    assert_eq!(t.serialize(&mut buf), Ok(20));
    let parsed = Tcp::parse(&buf, a, b).unwrap();
    assert_eq!(parsed.get_src(), 1234);
    assert_eq!(parsed.get_dst(), 80);
    assert!(parsed.is_ack());
    assert!(!parsed.is_syn());
}

#[test]
fn round_trip_preserves_header() {
    let a = Ipv4Address::new(172, 16, 254, 3);
    let b = Ipv4Address::new(172, 16, 254, 4);
    let h = TcpHeader {
        source: 60000,
        destination: 443,
        sequence: 0xDEADBEEF,
        acknowledgement: 0x01020304,
        data_offset: 6,
        reserved: 9,
        flags: 0xFF,
        window: 512,
        checksum: 0x1234, // stale placeholder; serialization recomputes
        urgent_ptr: 77,
        options: vec![2, 4, 5, 180],
        payload: vec![],
    };
    let t = Tcp::from(h, a, b);
    let mut buf = vec![0u8; 24];
    assert_eq!(t.serialize(&mut buf), Ok(24));
    let parsed = Tcp::parse(&buf, a, b).unwrap();
    assert_eq!(parsed.layer.source, 60000);
    assert_eq!(parsed.layer.destination, 443);
    assert_eq!(parsed.layer.sequence, 0xDEADBEEF);
    assert_eq!(parsed.layer.acknowledgement, 0x01020304);
    assert_eq!(parsed.layer.data_offset, 6);
    assert_eq!(parsed.layer.reserved, 9);
    assert_eq!(parsed.layer.flags, 0xFF);
    assert_eq!(parsed.layer.window, 512);
    assert_eq!(parsed.layer.urgent_ptr, 77);
    assert_eq!(parsed.layer.options, vec![2, 4, 5, 180]);
    // The two documented asymmetries: payload stays with the outer layer,
    // and the parsed checksum is the recomputed one from the wire.
    assert!(parsed.layer.payload.is_empty());
    assert_eq!(parsed.layer.checksum, 256 * buf[16] as u16 + buf[17] as u16);
    assert_eq!(parsed.src, a);
    assert_eq!(parsed.dst, b);
    // Re-serializing the parsed segment reproduces the identical bytes,
    // checksum included.
    let mut buf2 = vec![0u8; 24];
    assert_eq!(parsed.serialize(&mut buf2), Ok(24));
    assert_eq!(buf, buf2);
}

#[test]
fn parse_rejects_short_buffers() {
    let a = Ipv4Address::new(1, 2, 3, 4);
    let b = Ipv4Address::new(5, 6, 7, 8);
    assert!(Tcp::parse(&vec![0u8; 19], a, b).is_none());
    // 20 bytes, but the data-offset field declares a 24-byte header.
    let mut wire = vec![0u8; 20];
    wire[12] = 6 << 4;
    assert!(Tcp::parse(&wire, a, b).is_none());
    wire.extend_from_slice(&[0, 0, 0, 0]);
    assert!(Tcp::parse(&wire, a, b).is_some());
}

#[test]
fn parse_keeps_inconsistent_offset_verbatim() {
    let a = Ipv4Address::new(1, 2, 3, 4);
    let b = Ipv4Address::new(5, 6, 7, 8);
    // A declared header of 4 * 4 = 16 bytes is below the 20-byte minimum:
    // the codec is permissive and copies the field through, attaching no
    // option bytes.
    let mut wire = vec![0u8; 20];
    wire[12] = (4 << 4) | 3;
    let parsed = Tcp::parse(&wire, a, b).unwrap();
    assert_eq!(parsed.layer.data_offset, 4);
    assert_eq!(parsed.layer.reserved, 3);
    assert!(parsed.layer.options.is_empty());
}

#[test]
fn buffer_too_small_writes_nothing() {
    let a = Ipv4Address::new(10, 0, 0, 1);
    let b = Ipv4Address::new(10, 0, 0, 2);
    let t = Tcp::new_ack(a, b, 1234, 80, 1000, 2000);
    let mut buf = vec![0xAAu8; 19]; // wire size minus one
    assert_eq!(t.serialize(&mut buf), Err(TcpError::BufferTooSmall));
    assert_eq!(buf, vec![0xAAu8; 19]);
    assert_eq!(t.serialize_n(&mut buf, 0), Err(TcpError::BufferTooSmall));
    assert_eq!(buf, vec![0xAAu8; 19]);
}

#[test]
fn fixup_recomputes_data_offset() {
    let a = Ipv4Address::new(10, 1, 1, 1);
    let b = Ipv4Address::new(10, 1, 1, 2);
    let h = TcpHeader {
        source: 5,
        destination: 6,
        sequence: 1,
        acknowledgement: 2,
        data_offset: 5, // stale: options were attached afterwards
        reserved: 0,
        flags: 16,
        window: 100,
        checksum: 0,
        urgent_ptr: 0,
        options: vec![1, 1, 1, 1, 2, 4, 5, 180],
        payload: vec![0xAB],
    };
    let t = Tcp::from(h, a, b);
    // Pre-sizing still uses the stored offset, fixup or not.
    assert_eq!(t.get_size(), 21);
    let mut buf = vec![0u8; 32];
    assert_eq!(t.serialize_n(&mut buf, 0), Ok(29));
    assert_eq!(buf[12], 7 << 4); // offset fixed up to (20 + 8) / 4
    let parsed = Tcp::parse(&buf, a, b).unwrap();
    assert_eq!(parsed.layer.data_offset, 7);
    assert_eq!(parsed.layer.options, vec![1, 1, 1, 1, 2, 4, 5, 180]);
    assert_eq!(buf[28], 0xAB); // payload follows the fixed-up header
}

#[test]
fn checksum_known_vectors() {
    // Zero-length input: a zero sum complements to all ones.
    assert_eq!(internet_checksum(&vec![]), 0xFFFF);
    // Words 0x0001 and 0xF203 sum to 0xF204.
    assert_eq!(internet_checksum(&vec![0x00, 0x01, 0xF2, 0x03]), !0xF204u16);
    // Odd length: trailing byte is the high half of its word.
    assert_eq!(internet_checksum(&vec![0x00, 0x01, 0x03]), !0x0301u16);
    // End-around carry: 0xFFFF + 0x0002 wraps to 0x0002.
    assert_eq!(internet_checksum(&vec![0xFF, 0xFF, 0x00, 0x02]), !0x0002u16);
}

#[test]
fn single_bit_flip_changes_checksum() {
    let a = Ipv4Address::new(10, 0, 0, 1);
    let b = Ipv4Address::new(10, 0, 0, 2);
    let t = Tcp::new_ack(a, b, 1234, 80, 1000, 2000);
    let mut buf = vec![0u8; 20];
    assert_eq!(t.serialize(&mut buf), Ok(20));
    let mut input = pseudo(a, b, 20);
    input.extend_from_slice(&buf);
    input[12 + 16] = 0;
    input[12 + 17] = 0;
    let base = internet_checksum(&input);
    // Flip every bit of the header image in turn: the checksum always moves.
    for byte in 0..input.len() {
        for bit in 0..8 {
            let mut corrupt = input.clone();
            corrupt[byte] ^= 1 << bit;
            assert_ne!(internet_checksum(&corrupt), base);
        }
    }
    // The same, end to end: a one-bit payload difference changes the stored
    // checksum on re-serialization.
    let mut h1 = t.layer.clone();
    h1.payload = vec![0x12];
    let mut h2 = t.layer.clone();
    h2.payload = vec![0x13];
    let s1 = Tcp::from(h1, a, b);
    let s2 = Tcp::from(h2, a, b);
    let mut b1 = vec![0u8; 21];
    let mut b2 = vec![0u8; 21];
    assert_eq!(s1.serialize(&mut b1), Ok(21));
    assert_eq!(s2.serialize(&mut b2), Ok(21));
    assert_ne!(&b1[16..18], &b2[16..18]);
}
