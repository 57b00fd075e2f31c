use havy_kernel::net::config::NetConfig;
use havy_kernel::net::device::{parse_rx_segment, parse_tx_segment, DeviceWrapper, VirtioTxToken};
use havy_kernel::net::patching::{checksum_range, recalculate_tcp_checksum, TcpPatching};
use havy_kernel::net::state::build_ping_frame;
use havy_kernel::net::utils::{format_ipv4, parse_ipv4};

fn ones_complement_sum(data: &[u8]) -> u32 {
    let mut sum: u32 = 0;
    let mut i = 0;
    while i + 1 < data.len() {
        sum += ((data[i] as u32) << 8) | data[i + 1] as u32;
        i += 2;
    }
    if i < data.len() {
        sum += (data[i] as u32) << 8;
    }
    while sum > 0xffff {
        sum = (sum & 0xffff) + (sum >> 16);
    }
    sum
}

#[test]
fn ipv4_parses_dotted_quads() {
    assert_eq!(parse_ipv4(b"10.0.2.15"), Some([10, 0, 2, 15]));
    assert_eq!(parse_ipv4(b"255.255.255.255"), Some([255, 255, 255, 255]));
    assert_eq!(parse_ipv4(b"256.1.1.1"), None);
    assert_eq!(parse_ipv4(b"1.2.3"), None);
    assert_eq!(parse_ipv4(b"1.2.3.4.5"), None);
    assert_eq!(parse_ipv4(b"1..2.3"), None);
    assert_eq!(parse_ipv4(b"a.b.c.d"), None);
    assert_eq!(parse_ipv4(b""), None);
}

#[test]
fn ipv4_text_roundtrip() {
    for addr in [[0u8, 0, 0, 0], [10, 0, 2, 15], [192, 168, 1, 255], [255, 255, 255, 255], [1, 20, 100, 9]] {
        let mut buf = [b'#'; 20];
        let n = format_ipv4(addr, &mut buf);
        assert_eq!(parse_ipv4(&buf[..n]), Some(addr));
        assert!(buf[n..].iter().all(|&b| b == b'#'));
    }
    let mut buf = [0u8; 15];
    let n = format_ipv4([192, 168, 100, 200], &mut buf);
    assert_eq!(&buf[..n], b"192.168.100.200");
}

#[test]
fn checksum_of_known_words() {
    let data = [0x00u8, 0x01, 0xf2, 0x03, 0xf4, 0xf5, 0xf6, 0xf7];
    let c = checksum_range(&data, 0, data.len());
    assert_eq!(c as u32, 0xffff - ones_complement_sum(&data));
    assert_eq!(c, 0x220d);
    let odd = [0x12u8, 0x34, 0x56];
    assert_eq!(checksum_range(&odd, 0, 3) as u32, 0xffff - ones_complement_sum(&odd));
    assert_eq!(checksum_range(&data, 2, 2), 0xffff);
}

fn tcp_frame(payload: &[u8]) -> Vec<u8> {
    let mut f = vec![0u8; 54];
    f[12] = 0x08;
    f[13] = 0x00;
    f[14] = 0x45;
    let total = 40 + payload.len();
    f[16] = (total >> 8) as u8;
    f[17] = total as u8;
    f[23] = 6;
    f[26..30].copy_from_slice(&[10, 0, 2, 15]);
    f[30..34].copy_from_slice(&[10, 0, 2, 2]);
    f[34..36].copy_from_slice(&80u16.to_be_bytes());
    f[36..38].copy_from_slice(&40000u16.to_be_bytes());
    f[38..42].copy_from_slice(&1000u32.to_be_bytes());
    f[42..46].copy_from_slice(&2000u32.to_be_bytes());
    f[46] = 0x50;
    f[47] = 0x18;
    f[50] = 0xab;
    f[51] = 0xcd;
    f.extend_from_slice(payload);
    f
}

#[test]
fn recalculated_tcp_checksum_validates() {
    for payload in [&b""[..], &b"hello"[..], &b"even"[..]] {
        let mut f = tcp_frame(payload);
        recalculate_tcp_checksum(&mut f, 34);
        let tcp_len = (f.len() - 34) as u16;
        let mut pseudo = Vec::new();
        pseudo.extend_from_slice(&f[26..34]);
        pseudo.extend_from_slice(&[0, 6]);
        pseudo.extend_from_slice(&tcp_len.to_be_bytes());
        pseudo.extend_from_slice(&f[34..]);
        assert_eq!(ones_complement_sum(&pseudo), 0xffff);
    }
}

#[test]
fn ping_frame_checksums_validate() {
    let f = build_ping_frame([1, 2, 3, 4, 5, 6], [0x52, 0x54, 0, 0x12, 0x34, 0x56], [10, 0, 2, 15], [10, 0, 2, 2], 7);
    assert_eq!(f.len(), 52);
    assert_eq!(&f[..6], &[1, 2, 3, 4, 5, 6]);
    assert_eq!(&f[12..14], &[0x08, 0x00]);
    assert_eq!(&f[26..30], &[10, 0, 2, 15]);
    assert_eq!(&f[30..34], &[10, 0, 2, 2]);
    assert_eq!(f[34], 8);
    assert_eq!(ones_complement_sum(&f[14..34]), 0xffff);
    assert_eq!(ones_complement_sum(&f[34..52]), 0xffff);
    assert_eq!(&f[40..42], &7u16.to_be_bytes());
}

#[test]
fn segment_parsing() {
    let f = tcp_frame(b"abc");
    let g = parse_rx_segment(&f).unwrap();
    assert_eq!(g.tcp_offset, 34);
    assert_eq!(g.src_port, 80);
    assert_eq!(g.dst_port, 40000);
    assert_eq!(g.seq, 1000);
    assert_eq!(g.ack, 2000);
    assert_eq!(g.payload_len, 3);
    let t = parse_tx_segment(&f).unwrap();
    assert_eq!(t.payload_len, 3);
    let mut arp = f.clone();
    arp[12] = 0x08;
    arp[13] = 0x06;
    assert!(parse_rx_segment(&arp).is_none());
    assert!(parse_tx_segment(&arp).is_none());
}

#[test]
fn non_tcp_frames_pass_through_unchanged() {
    let mut p = TcpPatching::new();
    let mut arp = vec![0u8; 60];
    arp[12] = 0x08;
    arp[13] = 0x06;
    let out = VirtioTxToken { len: 60 }.consume(arp.clone(), &mut p);
    assert_eq!(out, arp);
    let mut dev = DeviceWrapper::new();
    let (rx, _tx) = dev.receive(Some(arp.clone())).unwrap();
    assert_eq!(rx.consume(&mut dev.patching), arp);
    assert!(dev.receive(None).is_none());
    let caps = dev.capabilities();
    assert_eq!(caps.max_transmission_unit, 1500);
}

#[test]
fn config_address() {
    let mut cfg = NetConfig::new();
    assert!(!havy_kernel::net::config::is_ip_assigned(&cfg));
    havy_kernel::net::config::set_my_ip(&mut cfg, [10, 0, 2, 15]);
    assert_eq!(havy_kernel::net::config::get_my_ip(&cfg), [10, 0, 2, 15]);
    assert!(havy_kernel::net::config::is_ip_assigned(&cfg));
}
