use havy_kernel::platform::d1_touch::{InputEvent, TouchState};
use havy_kernel::services::completion::{find_common_prefix, handle_tab_completion};
use havy_kernel::services::klogd::{klog_error, LogLevel, LogTarget, SimpleLogBuffer, LOG_BUFFER_SIZE, LOG_LINE_MAX};
use havy_kernel::services::shelld::{parse_tail_follow_command, BUFFER_SIZE};

fn line(s: &str) -> Vec<u8> {
    let mut b = vec![0u8; BUFFER_SIZE];
    b[..s.len()].copy_from_slice(s.as_bytes());
    b
}

#[test]
fn tab_completes_a_single_command() {
    let mut b = line("cowsa");
    let files: Vec<Vec<u8>> = vec![b"/etc/motd".to_vec()];
    let r = handle_tab_completion(&mut b, 5, &files, &b"/cowsa".to_vec());
    assert_eq!(r.new_len, 7);
    assert_eq!(&b[..7], b"cowsay ");
    assert_eq!(r.echo, b"y ".to_vec());
    assert!(!r.listed);
}

#[test]
fn tab_completes_a_file_in_root() {
    let mut b = line("cat he");
    let files: Vec<Vec<u8>> = vec![b"/hello.txt".to_vec(), b"/etc/motd".to_vec()];
    let r = handle_tab_completion(&mut b, 6, &files, &b"/he".to_vec());
    assert_eq!(r.new_len, 13);
    assert_eq!(&b[..13], b"cat hello.txt");
}

#[test]
fn tab_lists_several_matches() {
    let mut b = line("c");
    let files: Vec<Vec<u8>> = vec![b"/usr/bin/calc".to_vec()];
    let r = handle_tab_completion(&mut b, 1, &files, &b"/c".to_vec());
    assert_eq!(r.matches, vec![b"calc".to_vec(), b"cat".to_vec(), b"cd".to_vec(), b"clear".to_vec(), b"cowsay".to_vec()]);
    assert!(r.listed);
    assert_eq!(r.new_len, 1);
}

#[test]
fn tab_on_empty_line_does_nothing() {
    let mut b = line("");
    let files: Vec<Vec<u8>> = vec![];
    let r = handle_tab_completion(&mut b, 0, &files, &b"/".to_vec());
    assert_eq!(r.new_len, 0);
    assert!(r.echo.is_empty());
    assert_eq!(b, line(""));
}

#[test]
fn common_prefix_of_names() {
    let v: Vec<Vec<u8>> = vec![b"cowsay".to_vec(), b"cowboy".to_vec(), b"cow".to_vec()];
    assert_eq!(find_common_prefix(&v), b"cow".to_vec());
    let none: Vec<Vec<u8>> = vec![];
    assert_eq!(find_common_prefix(&none), Vec::<u8>::new());
}

#[test]
fn tail_follow_command_parsing() {
    assert_eq!(parse_tail_follow_command(b"tail -f /var/log/kernel.log"), Some((b"/var/log/kernel.log".to_vec(), 10)));
    assert_eq!(parse_tail_follow_command(b"  tail -n 25 -f /a  "), Some((b"/a".to_vec(), 25)));
    assert_eq!(parse_tail_follow_command(b"tail -n5 --follow /b"), Some((b"/b".to_vec(), 5)));
    assert_eq!(parse_tail_follow_command(b"tail --lines=7 -f /c"), Some((b"/c".to_vec(), 7)));
    assert_eq!(parse_tail_follow_command(b"tail /a"), None);
    assert_eq!(parse_tail_follow_command(b"tail -f"), None);
    assert_eq!(parse_tail_follow_command(b"tailor -f /a"), None);
    assert_eq!(parse_tail_follow_command(b"cat /a"), None);
}

#[test]
fn log_queue_drops_the_oldest_when_full() {
    let mut buf = SimpleLogBuffer::new();
    for i in 0..(LOG_BUFFER_SIZE + 2) {
        buf.push(&format!("line {}", i), LogTarget::Kernel);
    }
    let drained = buf.drain();
    assert_eq!(drained.len(), LOG_BUFFER_SIZE);
    assert_eq!(drained[0].0, b"line 2".to_vec());
    assert_eq!(drained[LOG_BUFFER_SIZE - 1].0, format!("line {}", LOG_BUFFER_SIZE + 1).into_bytes());
    assert!(!buf.has_entries());
}

#[test]
fn log_lines_are_clipped() {
    let mut buf = SimpleLogBuffer::new();
    let long = "x".repeat(LOG_LINE_MAX + 50);
    buf.push(&long, LogTarget::Sysmond);
    let drained = buf.drain();
    assert_eq!(drained[0].0.len(), LOG_LINE_MAX);
    assert!(drained[0].1 == LogTarget::Sysmond);
}

#[test]
fn log_records_keep_their_level() {
    let r = klog_error("net", "link down");
    assert!(r.level == LogLevel::Error);
    assert_eq!(r.subsystem, b"net".to_vec());
    assert_eq!(r.message, b"link down".to_vec());
}

fn ev(code: u16) -> InputEvent {
    InputEvent { event_type: 1, code, value: 1 }
}

#[test]
fn touch_events_come_out_in_order_and_overflow_is_dropped() {
    let mut t = TouchState::new();
    assert!(!t.has_events());
    for c in 0..20u16 {
        t.push_event(ev(c));
    }
    for c in 0..15u16 {
        assert!(t.pop_event() == Some(ev(c)));
    }
    assert!(t.pop_event().is_none());
}

#[test]
fn tab_completes_in_a_short_buffer() {
    let mut b = vec![b'e', b'c', 0, 0, 0, 0, 0, 0];
    let files: Vec<Vec<u8>> = vec![];
    let r = handle_tab_completion(&mut b, 2, &files, &b"/ec".to_vec());
    assert_eq!(r.new_len, 5);
    assert_eq!(b, vec![b'e', b'c', b'h', b'o', b' ', 0, 0, 0]);
    assert_eq!(r.echo, b"ho ".to_vec());
}

#[test]
fn tab_completes_a_file_in_a_directory() {
    let mut b = b"cat /etc/ht".to_vec();
    b.resize(32, 0);
    let files: Vec<Vec<u8>> = vec![b"/etc/httpd.conf".to_vec(), b"/etc/motd".to_vec()];
    let r = handle_tab_completion(&mut b, 11, &files, &b"/etc/ht".to_vec());
    assert_eq!(r.new_len, 19);
    assert_eq!(&b[..19], b"cat /etc/httpd.conf");
    assert!(b[19..].iter().all(|&x| x == 0));
    assert_eq!(r.echo, b"tpd.conf".to_vec());
}
