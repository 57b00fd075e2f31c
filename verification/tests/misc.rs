use havy_kernel::fmt::{push_decimal, push_hex, push_signed_decimal};
use havy_kernel::scripting::{binary_kind, exit_message, BinaryKind};
use havy_kernel::syscall::{handle_syscall, sys_cwd_get, write_bytes, Syscall};
use havy_kernel::text::{parse_usize, split_whitespace};
use havy_kernel::tls::{build_get_request, format_u16, https_get_url, is_http_response_complete, TlsError};

#[test]
fn decimal_and_hex_text() {
    let mut v = Vec::new();
    push_decimal(&mut v, 0);
    v.push(b' ');
    push_decimal(&mut v, 18446744073709551615);
    v.push(b' ');
    push_signed_decimal(&mut v, -42);
    v.push(b' ');
    push_hex(&mut v, 0xdead);
    assert_eq!(String::from_utf8(v).unwrap(), "0 18446744073709551615 -42 dead");
    let mut buf = [0u8; 10];
    let n = format_u16(65535, &mut buf);
    assert_eq!(&buf[..n], b"65535");
}

#[test]
fn words_and_numbers() {
    assert_eq!(split_whitespace(b"  ls  -l\t/tmp "), vec![b"ls".to_vec(), b"-l".to_vec(), b"/tmp".to_vec()]);
    assert_eq!(parse_usize(b"1234"), Some(1234));
    assert_eq!(parse_usize(b"12a"), None);
    assert_eq!(parse_usize(b""), None);
}

#[test]
fn script_kinds_and_exit_text() {
    assert!(binary_kind(&[0x7f, b'E', b'L', b'F', 2]) == BinaryKind::Elf);
    assert!(binary_kind(b"\0asm\x01\0\0\0") == BinaryKind::Wasm);
    assert!(binary_kind(b"echo hi") == BinaryKind::Unknown);
    assert!(exit_message(0).is_none());
    let t = exit_message(-3).unwrap();
    assert!(t.ends_with(b"-3\n"));
}

#[test]
fn syscall_decoding_and_buffers() {
    assert!(handle_syscall(0, 0x1000, 5, 0, 0, 0, 0) == Syscall::Print { ptr: 0x1000, len: 5 });
    assert_eq!(write_bytes(true, b"abc", 10), (-1, vec![]));
    assert_eq!(write_bytes(false, b"abcdef", 4), (4, b"abcd".to_vec()));
    assert_eq!(sys_cwd_get(b"/home", false, 3).0, -1);
    assert_eq!(sys_cwd_get(b"/home", false, 8), (5, b"/home".to_vec()));
}

#[test]
fn https_get_target() {
    let r = https_get_url("10.0.2.2", None, "/x", "0.1");
    let (ip, req) = r.ok().unwrap();
    assert_eq!(ip, [10, 0, 2, 2]);
    assert_eq!(req, build_get_request("/x", "10.0.2.2", "0.1"));
    assert!(String::from_utf8(req).unwrap().starts_with("GET /x HTTP/1.1\r\nHost: 10.0.2.2\r\n"));
    assert!(https_get_url("example.com", None, "/", "0.1") == Err(TlsError::DnsError));
    assert_eq!(https_get_url("example.com", Some([1, 2, 3, 4]), "/", "0.1").ok().unwrap().0, [1, 2, 3, 4]);
}

#[test]
fn http_response_completeness() {
    assert!(!is_http_response_complete(b"HTTP/1.1 200 OK\r\n"));
    assert!(is_http_response_complete(b"HTTP/1.1 200 OK\r\nContent-Length: 0\r\n\r\n"));
    assert!(!is_http_response_complete(b"HTTP/1.1 200 OK\r\ncontent-length: 3\r\n\r\nab"));
    assert!(is_http_response_complete(b"HTTP/1.1 200 OK\r\ncontent-length: 3\r\n\r\nabc"));
    assert!(!is_http_response_complete(b"HTTP/1.1 200 OK\r\n\r\n"));
    assert!(is_http_response_complete(b"HTTP/1.1 200 OK\r\n\r\nx"));
}
