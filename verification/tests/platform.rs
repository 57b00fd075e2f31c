use havy_kernel::mmio::RegOp;
use havy_kernel::paging::{pte_is_leaf, pte_ppn, satp_value};
use havy_kernel::perfstat::PerfCounters;
use havy_kernel::platform::d1_display::{
    get_frame_version, is_frame_dirty, mark_dirty, pack_pixel, reset_dirty, DisplayState, GpuDriver,
};
use havy_kernel::platform::d1_mmc::{find_linux_partition, parse_csd_capacity, relative_address};
use havy_kernel::plic;
use havy_kernel::services::httpd::{build_simple_response, parse_request, replace, request_complete, route, Route};
use havy_kernel::trap::{classify_trap, exception_action, interrupts_enabled, schedule_timer_interrupt, ExceptionAction, TrapKind};

#[test]
fn trap_causes_are_classified() {
    assert!(classify_trap(0x8000_0000_0000_0005) == TrapKind::Timer);
    assert!(classify_trap(0x8000_0000_0000_0001) == TrapKind::Software);
    assert!(classify_trap(0x8000_0000_0000_0009) == TrapKind::External);
    assert!(classify_trap(0x8000_0000_0000_0007) == TrapKind::UnknownInterrupt(0x8000_0000_0000_0007));
    assert!(classify_trap(13) == TrapKind::Exception(13));
    assert!(exception_action(8) == ExceptionAction::Skip(4));
    assert!(exception_action(9) == ExceptionAction::Skip(4));
    assert!(exception_action(3) == ExceptionAction::Skip(2));
    assert!(exception_action(13) == ExceptionAction::Fatal);
    assert!(interrupts_enabled(0x2));
    assert!(!interrupts_enabled(0x20));
    let c = schedule_timer_interrupt(u64::MAX - 10);
    assert_eq!(c.a0, 100_000 - 11);
}

#[test]
fn plic_registers() {
    assert_eq!(plic::s_context(0), 1);
    assert_eq!(plic::s_context(2), 5);
    assert_eq!(plic::enable_addr(0), 0x0C00_0000 + 0x2000 + 0x80);
    assert!(plic::mask(0, 3, 0xff) == Some(RegOp::Write { addr: 0x0C00_2080, value: 0xf7 }));
    assert!(plic::unmask(0, 3, 0xf0) == Some(RegOp::Write { addr: 0x0C00_2080, value: 0xf8 }));
    assert!(plic::mask(1, 3, 0xff).is_none());
    assert!(plic::mask(0, 40, 0xff).is_none());
}

#[test]
fn page_table_entries() {
    assert_eq!(pte_ppn(0x8020_0000), (0x8020_0000u64 >> 12) << 10);
    assert!(pte_is_leaf(0xf));
    assert!(!pte_is_leaf(0x1));
    assert_eq!(satp_value(0x8040_0000) >> 60, 8);
    assert_eq!(satp_value(0x8040_0000) & ((1u64 << 44) - 1), 0x8040_0000 >> 12);
}

#[test]
fn mmc_card_parameters() {
    assert_eq!(parse_csd_capacity(0x1234_0000, 0x2), (0x2_1234 + 1) * 1024);
    assert_eq!(relative_address(0xABCD_1234), 0xABCD_0000);
    let mut mbr = vec![0u8; 512];
    assert_eq!(find_linux_partition(Some(&mbr)), None);
    mbr[510] = 0x55;
    mbr[511] = 0xAA;
    assert_eq!(find_linux_partition(Some(&mbr)), None);
    mbr[446 + 16 + 4] = 0x83;
    mbr[446 + 16 + 8..446 + 16 + 12].copy_from_slice(&2048u32.to_le_bytes());
    assert_eq!(find_linux_partition(Some(&mbr)), Some(2048));
    assert_eq!(find_linux_partition(None), None);
}

#[test]
fn display_fill_and_read_back() {
    let mut d = DisplayState::new();
    let mut g = GpuDriver::new();
    g.init().unwrap();
    g.fill_rect(&mut d, 10, 20, 3, 2, 0x12, 0x34, 0x56);
    let px = pack_pixel(0x12, 0x34, 0x56);
    assert_eq!(g.get_pixel(10, 20), px);
    assert_eq!(g.get_pixel(12, 21), px);
    assert_ne!(g.get_pixel(13, 21), px);
    assert!(is_frame_dirty(&d));
    let mut buf = [0u32; 8];
    let n = g.read_rect(10, 20, 4, 2, &mut buf);
    assert_eq!(n, 8);
    assert_eq!(&buf[..3], &[px, px, px]);
    assert_ne!(buf[3], px);
    reset_dirty(&mut d);
    assert!(!is_frame_dirty(&d));
    mark_dirty(&mut d, 0, 0, 1, 1);
    assert!(is_frame_dirty(&d));
    let v = get_frame_version(&d);
    let mut perf = PerfCounters::new();
    let rep = g.flush(&mut d, &mut perf);
    assert!(rep.is_some());
    assert!(!is_frame_dirty(&d));
    assert_eq!(get_frame_version(&d), v.wrapping_add(1));
}

#[test]
fn http_request_routing() {
    let req = b"GET /status HTTP/1.1\r\nHost: x\r\n\r\n".to_vec();
    assert!(request_complete(&req));
    assert!(!request_complete(b"GET / HTTP/1.1\r\n"));
    let (m, p) = parse_request(&req);
    assert_eq!(m, b"GET".to_vec());
    assert_eq!(p, b"/status".to_vec());
    assert!(route(&m, &p) == Route::Status);
    assert!(route(&b"GET".to_vec(), &b"/".to_vec()) == Route::Index);
    assert!(route(&b"GET".to_vec(), &b"/nope".to_vec()) == Route::NotFound);
}

#[test]
fn http_response_text() {
    let r = build_simple_response(200, b"OK", b"text/plain", b"hi");
    let text = String::from_utf8(r).unwrap();
    assert!(text.starts_with("HTTP/1.1 200 OK\r\nContent-Type: text/plain\r\nContent-Length: 2\r\n"));
    assert!(text.ends_with("\r\n\r\nhi"));
    assert_eq!(replace(&b"a{x}b{x}".to_vec(), b"{x}", b"--"), b"a--b--".to_vec());
    assert_eq!(replace(&b"aaa".to_vec(), b"aa", b"b"), b"ba".to_vec());
}
