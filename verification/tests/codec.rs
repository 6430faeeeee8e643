//! Construction, predicates, sizing and rendering.

use tcp_codec::{Ipv4Address, LayerType, Tcp, TcpHeader};

fn header(flags: u8) -> TcpHeader {
    TcpHeader {
        source: 4000,
        destination: 5000,
        sequence: 7,
        acknowledgement: 9,
        data_offset: 5,
        reserved: 0,
        flags,
        window: 1024,
        checksum: 0,
        urgent_ptr: 0,
        options: Vec::new(),
        payload: Vec::new(),
    }
}

fn endpoints() -> (Ipv4Address, Ipv4Address) {
    (Ipv4Address::new(192, 168, 0, 1), Ipv4Address::new(192, 168, 0, 2))
}

#[test]
fn new_ack_fields() {
    let (a, b) = endpoints();
    let t = Tcp::new_ack(a, b, 1234, 80, 1000, 2000);
    assert_eq!(t.get_src(), 1234);
    assert_eq!(t.get_dst(), 80);
    assert_eq!(t.get_sequence(), 1000);
    assert_eq!(t.get_acknowledgement(), 2000);
    assert_eq!(t.get_src_ip_addr(), a);
    assert_eq!(t.get_dst_ip_addr(), b);
    assert_eq!(t.layer.data_offset, 5);
    assert_eq!(t.layer.reserved, 0);
    assert_eq!(t.layer.window, 65535);
    assert_eq!(t.layer.checksum, 0);
    assert_eq!(t.layer.urgent_ptr, 0);
    assert!(t.layer.options.is_empty());
    assert!(t.layer.payload.is_empty());
    assert!(t.is_ack());
    assert!(!t.is_syn());
    assert!(!t.is_rst());
    assert!(!t.is_fin());
}

#[test]
fn rst_and_ack_syn_flags() {
    let (a, b) = endpoints();
    let rst = Tcp::new_rst(a, b, 1, 2, 3, 4);
    assert!(rst.is_rst());
    assert!(!rst.is_ack());
    let syn_ack = Tcp::new_ack_syn(a, b, 1, 2, 3, 4);
    assert!(syn_ack.is_ack());
    assert!(syn_ack.is_syn());
    assert!(!syn_ack.is_rst());
}

#[test]
fn rst_or_fin_matches_disjunction() {
    let (a, b) = endpoints();
    // Every RST/FIN combination, each once with other flags mixed in.
    for extra in [0u8, 16, 2, 8] {
        for (rst, fin) in [(false, false), (true, false), (false, true), (true, true)] {
            let mut flags = extra;
            if rst {
                flags |= 4;
            }
            if fin {
                flags |= 1;
            }
            let t = Tcp::from(header(flags), a, b);
            assert_eq!(t.is_rst(), rst);
            assert_eq!(t.is_fin(), fin);
            assert_eq!(t.is_rst_or_fin(), rst || fin);
        }
    }
}

#[test]
fn from_wraps_header_verbatim() {
    let (a, b) = endpoints();
    let mut h = header(2);
    h.options = vec![8, 10, 0, 0];
    h.data_offset = 6;
    h.payload = vec![1, 2, 3];
    let t = Tcp::from(h, a, b);
    assert_eq!(t.layer.flags, 2);
    assert_eq!(t.layer.options, vec![8, 10, 0, 0]);
    assert_eq!(t.layer.payload, vec![1, 2, 3]);
    assert_eq!(t.get_type(), LayerType::Tcp);
}

#[test]
fn wire_size_is_offset_words_plus_payload() {
    let (a, b) = endpoints();
    let plain = Tcp::new_ack(a, b, 1, 2, 3, 4);
    assert_eq!(plain.get_size(), 20);
    let mut h = header(16);
    h.data_offset = 6;
    h.options = vec![1, 1, 1, 1];
    h.payload = vec![0; 13];
    let t = Tcp::from(h, a, b);
    assert_eq!(t.get_size(), 4 * 6 + 13);
}

#[test]
fn describe_renders_ports_and_flags() {
    let (a, b) = endpoints();
    let t = Tcp::new_ack_syn(a, b, 1234, 80, 0, 0);
    assert_eq!(t.describe(), "TCP: 1234 -> 80 [-A-.S.]");
    let r = Tcp::new_rst(a, b, 65535, 0, 0, 0);
    assert_eq!(r.describe(), "TCP: 65535 -> 0 [-.-R..]");
    let f = Tcp::from(header(1 | 4 | 16), a, b);
    assert_eq!(f.describe(), "TCP: 4000 -> 5000 [-A-R.F]");
}
