use havy_kernel::lock::state::shell::ShellCmdState;
use havy_kernel::scheduler::hart_to_wake;
use havy_kernel::syscall::{handle_syscall, unknown_call_result, SYS_TIME};
use havy_kernel::net::config::{set_my_ip, NetConfig};
use havy_kernel::paging::{pte_ppn, PageTables, KERNEL_LEAF, USER_LEAF};
use havy_kernel::platform::d1_display::{DisplayState, GpuDriver, FB_STRIDE};
use havy_kernel::syscall::{
    klog_request_count, mkdir_keep_path, ping_wait_step, sys_cpu_info, sys_env_get, sys_fs_is_dir, sys_fs_list,
    sys_fs_stat, sys_heap_stats, sys_kill, sys_net_info, sys_ps_list, sys_random, sys_service_list, sys_tcp_status,
    PingWait, ProcessEntry, ShellCommandEntry,
};

const BASE: u64 = 0x1000_0000;

fn table_of(pt: &PageTables, t: usize, i: usize) -> usize {
    let e = pt.get_entry(t, i);
    assert_eq!(e & 0xF, 1, "entry {} of table {} is no pointer", i, t);
    (((e >> 10) << 12) - BASE) as usize / 4096
}

#[test]
fn kernel_tables_map_mmio_and_dram() {
    let pt = PageTables::init(BASE);
    assert_eq!(pt.tables.len(), 3);
    assert_eq!(pt.get_entry(0, 0), KERNEL_LEAF);
    assert_eq!(pt.get_entry(0, 3), 0);
    let t1 = table_of(&pt, 0, 1);
    assert_eq!(pt.get_entry(t1, 0), pte_ppn(0x4000_0000) | KERNEL_LEAF);
    assert_eq!(pt.get_entry(t1, 255), pte_ppn(0x4000_0000 + 255 * 0x20_0000) | KERNEL_LEAF);
    assert_eq!(pt.get_entry(t1, 256), 0);
    let t2 = table_of(&pt, 0, 2);
    assert_eq!(pt.get_entry(t2, 0), pte_ppn(0x8000_0000) | KERNEL_LEAF);
    assert_eq!(pt.get_entry(t2, 256), 0);
}

#[test]
fn user_pages_split_their_block() {
    let mut pt = PageTables::init(BASE);
    pt.map_user(0x8020_0100, 0x1000);
    assert_eq!(pt.tables.len(), 4);
    let t1 = table_of(&pt, 0, 2);
    let t0 = table_of(&pt, t1, 1);
    assert_eq!(pt.get_entry(t0, 0), pte_ppn(0x8020_0000) | USER_LEAF);
    assert_eq!(pt.get_entry(t0, 1), pte_ppn(0x8020_1000) | USER_LEAF);
    assert_eq!(pt.get_entry(t0, 2), pte_ppn(0x8020_2000) | KERNEL_LEAF);
    assert_eq!(pt.get_entry(t0, 511), pte_ppn(0x803F_F000) | KERNEL_LEAF);
    assert_eq!(pt.get_entry(t1, 0), pte_ppn(0x8000_0000) | KERNEL_LEAF);
    pt.unmap_user(0x8020_0100, 0x1000);
    assert_eq!(pt.tables.len(), 4);
    assert_eq!(pt.get_entry(t0, 0), pte_ppn(0x8020_0000) | KERNEL_LEAF);
    assert_eq!(pt.get_entry(t0, 1), pte_ppn(0x8020_1000) | KERNEL_LEAF);
}

#[test]
fn gigapage_is_not_split() {
    let mut pt = PageTables::init(BASE);
    pt.map_user(0x1000, 0x10);
    assert_eq!(pt.tables.len(), 3);
    assert_eq!(pt.get_entry(0, 0), KERNEL_LEAF);
}

#[test]
fn unmapped_gigabyte_gets_tables() {
    let mut pt = PageTables::init(BASE);
    pt.map_user(0xC000_0000, 1);
    assert_eq!(pt.tables.len(), 5);
    let t1 = table_of(&pt, 0, 3);
    let t0 = table_of(&pt, t1, 0);
    assert_eq!(pt.get_entry(t0, 0), pte_ppn(0xC000_0000) | USER_LEAF);
    assert_eq!(pt.get_entry(t0, 1), 0);
}

#[test]
fn kill_and_random() {
    assert_eq!(sys_kill(0), (-2, None));
    assert_eq!(sys_kill(7), (0, Some(7)));
    assert_eq!(sys_random(1, false, 3), (3, vec![198, 126, 129]));
    assert_eq!(sys_random(1, true, 3), (-1, vec![]));
}

#[test]
fn environment_values() {
    assert_eq!(sys_env_get(false, b"HOME", b"/tmp", false, 64), (5, b"/home".to_vec()));
    assert_eq!(sys_env_get(false, b"HOME", b"/tmp", false, 3), (3, b"/ho".to_vec()));
    assert_eq!(sys_env_get(false, b"PWD", b"/tmp", false, 64), (4, b"/tmp".to_vec()));
    assert_eq!(sys_env_get(false, b"TERM", b"/", false, 64), (14, b"xterm-256color".to_vec()));
    assert_eq!(sys_env_get(false, b"FOO", b"/", false, 64), (-1, vec![]));
    assert_eq!(sys_env_get(true, b"HOME", b"/", false, 64), (-1, vec![]));
    assert_eq!(sys_env_get(false, b"HOME", b"/", true, 64), (-1, vec![]));
}

#[test]
fn service_and_network_records() {
    let (n, text) = sys_service_list(false, 100);
    assert_eq!(n, 55);
    assert_eq!(text, b"netd:Network daemon\nhttpd:HTTP server\ngpuid:GUI daemon\n".to_vec());
    assert_eq!(sys_service_list(false, 4), (4, b"netd".to_vec()));
    let mut cfg = NetConfig::new();
    assert_eq!(sys_net_info(false, 19, &cfg), (-2, vec![]));
    set_my_ip(&mut cfg, [10, 0, 2, 15]);
    assert_eq!(sys_net_info(false, 18, &cfg), (-1, vec![]));
    assert_eq!(
        sys_net_info(false, 32, &cfg),
        (19, vec![10, 0, 2, 15, 0x52, 0x54, 0, 0x12, 0x34, 0x56, 10, 0, 2, 2, 8, 8, 8, 8, 24])
    );
    assert_eq!(
        sys_heap_stats(false, 0x0102, 3),
        (16, vec![2, 1, 0, 0, 0, 0, 0, 0, 3, 0, 0, 0, 0, 0, 0, 0])
    );
    assert_eq!(sys_heap_stats(true, 1, 2), (-1, vec![]));
    assert_eq!(sys_tcp_status(false, true, false), 0);
    assert_eq!(sys_tcp_status(true, true, true), 2);
    assert_eq!(sys_tcp_status(true, false, true), 3);
    assert_eq!(sys_tcp_status(true, false, false), 1);
    assert_eq!(klog_request_count(0), 1);
    assert_eq!(klog_request_count(7), 7);
    assert_eq!(klog_request_count(500), 100);
}

#[test]
fn listings() {
    let files = vec![(b"a.txt".to_vec(), 12u64), (b"b".to_vec(), 0u64)];
    assert_eq!(sys_fs_list(&files, false, 100), (13, b"a.txt:12\nb:0\n".to_vec()));
    assert_eq!(sys_fs_list(&files, false, 5), (5, b"a.txt".to_vec()));
    assert_eq!(sys_fs_list(&files, true, 5), (-1, vec![]));
    let ps = vec![ProcessEntry {
        pid: 3,
        name: b"netd".to_vec(),
        running: false,
        priority: 2,
        cpu_time_ms: 40,
        uptime_ms: 1000,
    }];
    let shell = Some(ShellCommandEntry {
        name: b"ls".to_vec(),
        pid: 9,
        cpu_time_ms: 5,
        uptime_ms: 20,
        running: true,
    });
    let (n, text) = sys_ps_list(&ps, &shell, false, 200);
    assert_eq!(String::from_utf8(text).unwrap(), "3:netd:S:2:40:1000\n9:ls:R:0:20:5\n");
    assert_eq!(n, 33);
    let (n, text) = sys_ps_list(&ps, &None, false, 200);
    assert_eq!((n, text), (19, b"3:netd:S:2:40:1000\n".to_vec()));
}

#[test]
fn file_system_questions() {
    let names = vec![b"/bin/ls".to_vec(), b"/etc/x".to_vec()];
    assert_eq!(sys_fs_is_dir(false, b"/bin", Some(&names)), 1);
    assert_eq!(sys_fs_is_dir(false, b"/bin/", Some(&names)), 1);
    assert_eq!(sys_fs_is_dir(false, b"/usr", Some(&names)), 0);
    assert_eq!(sys_fs_is_dir(false, b"/bin", None), -1);
    assert_eq!(sys_fs_is_dir(true, b"/bin", Some(&names)), -1);
    assert_eq!(sys_fs_stat(false, b"/a", Some((Some(0x1234), &names))), (0, vec![0x34, 0x12, 0, 0, 1, 0]));
    assert_eq!(sys_fs_stat(false, b"/etc", Some((None, &names))), (0, vec![0, 0, 0, 0, 1, 1]));
    assert_eq!(sys_fs_stat(false, b"/nope", Some((None, &names))), (0, vec![0, 0, 0, 0, 0, 0]));
    assert_eq!(sys_fs_stat(false, b"/a", None), (-1, vec![]));
    assert_eq!(mkdir_keep_path(b"/tmp//"), b"/tmp/.keep".to_vec());
    assert_eq!(mkdir_keep_path(b"/tmp"), b"/tmp/.keep".to_vec());
}

#[test]
fn ping_wait_and_cpu_record() {
    let target = [10, 0, 2, 2];
    assert!(ping_wait_step(100, 100, 0, target, 1, None) == PingWait::Timeout);
    assert!(ping_wait_step(50, 100, 20, target, 1, Some((target, 7, 1))) == PingWait::Reply(30));
    assert!(ping_wait_step(50, 100, 20, target, 1, Some((target, 7, 2))) == PingWait::Waiting);
    assert!(ping_wait_step(50, 100, 20, target, 1, Some(([1, 1, 1, 1], 7, 1))) == PingWait::Waiting);
    assert!(ping_wait_step(50, 100, 20, target, 1, None) == PingWait::Waiting);
    assert_eq!(sys_cpu_info(Some((true, 1, 50, 0x0102)), false), (0, vec![1, 50, 2, 1, 0, 0]));
    assert_eq!(sys_cpu_info(Some((false, 1, 50, 2)), false), (-1, vec![]));
    assert_eq!(sys_cpu_info(None, false), (-1, vec![]));
}

#[test]
fn display_blocks_and_cursor() {
    let mut d = DisplayState::new();
    let mut g = GpuDriver::new();
    g.init().unwrap();
    let buf: Vec<u32> = (0..16u32).collect();
    g.blit_rect(&mut d, 1020, 0, 8, 2, &buf);
    assert_eq!(g.get_pixel(1020, 0), 0);
    assert_eq!(g.get_pixel(1023, 0), 3);
    assert_eq!(g.get_pixel(1020, 1), 8);
    assert_eq!(g.get_pixel(1023, 1), 11);
    let mut back = [0xFFFF_FFFFu32; 16];
    let n = g.read_rect_fast(1020, 0, 8, 2, &mut back);
    assert_eq!(n, 8);
    assert_eq!(&back[..4], &[0, 1, 2, 3]);
    assert_eq!(back[4], 0xFFFF_FFFF);
    assert_eq!(&back[8..12], &[8, 9, 10, 11]);
    let mut short = [0u32; 3];
    assert_eq!(g.read_rect_fast(0, 0, 2, 2, &mut short), 0);

    let pixels = [7u32, 8, 9, 10];
    let mask = [1u8, 0, 1, 1];
    g.write_rect(&mut d, 100, 100, 2, 2, &pixels, &mask);
    assert_eq!(g.get_pixel(100, 100), 7);
    assert_eq!(g.get_pixel(101, 100), 0);
    assert_eq!(g.get_pixel(100, 101), 9);
    assert_eq!(g.get_pixel(101, 101), 10);

    let bitmap = [1u8, 2, 0, 2, 1, 0, 0, 0, 1];
    g.draw_cursor_bitmap(&mut d, -1, -1, 3, 3, &bitmap);
    assert_eq!(g.get_pixel(0, 0), 0xFF00_0000);
    assert_eq!(g.get_pixel(1, 1), 0xFF00_0000);
    assert_eq!(g.get_pixel(1, 0), 0);
    g.draw_cursor_bitmap(&mut d, 10, 10, 2, 1, &[2, 0]);
    assert_eq!(g.get_pixel(10, 10), 0xFFFF_FFFF);

    let bytes = g.framebuffer_bytes();
    assert_eq!(bytes.len(), FB_STRIDE * 768);
    assert_eq!(&bytes[..4], &[0, 0, 0, 0xFF]);
    let k = 4 * (1023 + 1024);
    assert_eq!(&bytes[k..k + 4], &[11, 0, 0, 0]);
}

#[test]
fn unknown_calls_and_wakeups() {
    assert_eq!(unknown_call_result(&handle_syscall(0xFFFF, 0, 0, 0, 0, 0, 0)), Some(-1));
    let known = handle_syscall(SYS_TIME, 0, 0, 0, 0, 0, 0);
    assert_eq!(unknown_call_result(&known), None);
    assert_eq!(hart_to_wake(0), None);
    assert_eq!(hart_to_wake(3), Some(3));
}

#[test]
fn command_names_keep_32_bytes() {
    let mut s = ShellCmdState::new();
    let name = "abcdefghijklmnopqrstuvwxyz012345";
    s.start_command(name, 7, 1000);
    assert_eq!(s.name_len, 32);
    assert_eq!(&s.name[..], name.as_bytes());
    s.start_command("0123456789012345678901234567890123", 8, 1001);
    assert_eq!(s.name_len, 32);
    assert_eq!(s.get_name(), "01234567890123456789012345678901");
}
