//! The network daemon: waiting for DHCP, and driving a continuous ping.
use vstd::prelude::*;
use crate::fmt::{dec_text, push_bytes, push_decimal};
use crate::lock::state::ping::PingState;
use crate::net::config::{is_ip_assigned, NetConfig, PREFIX_LEN};
use crate::net::utils::{format_ipv4, ipv4_text};
use crate::net::d1_state::D1NetState;

verus! {

/// How often the daemon checks for an address.
pub const POLL_INTERVAL_MS: i64 = 500;
/// A ping request without a reply for this long has timed out.
pub const PING_TIMEOUT_MS: i64 = 5000;
/// Pings go out this often.
pub const PING_INTERVAL_MS: i64 = 1000;

/// The daemon's state.
#[derive(Clone, Copy, PartialEq, Eq, Structural)]
pub struct NetdState {
    pub initialized: bool,
    pub ip_assigned: bool,
    pub last_run: i64,
}

impl NetdState {
    pub fn new() -> (s: Self)
        ensures
            !s.initialized,
            !s.ip_assigned,
            s.last_run == 0,
    {
        NetdState { initialized: false, ip_assigned: false, last_run: 0 }
    }
}

/// Start the daemon (once; later calls change nothing).
pub fn init(st: &mut NetdState) -> (r: Result<(), &'static str>)
    ensures
        r is Ok,
        final(st).initialized,
        final(st).ip_assigned == old(st).ip_assigned,
        final(st).last_run == old(st).last_run,
{
    st.initialized = true;
    Ok(())
}

pub fn is_running(st: &NetdState) -> (r: bool)
    ensures
        r == st.initialized,
{
    st.initialized
}

pub fn has_ip(st: &NetdState) -> (r: bool)
    ensures
        r == st.ip_assigned,
{
    st.ip_assigned
}

/// Whether the daemon looks for an address at `now`: once started, until one
/// is assigned, every half second. A look is recorded.
pub fn tick(st: &mut NetdState, now: i64) -> (look: bool)
    requires
        i64::MIN <= now - old(st).last_run <= i64::MAX,
    ensures
        look == (old(st).initialized && !old(st).ip_assigned && now - old(st).last_run >= POLL_INTERVAL_MS),
        look ==> final(st).last_run == now,
        !look ==> final(st).last_run == old(st).last_run,
        final(st).initialized == old(st).initialized,
        final(st).ip_assigned == old(st).ip_assigned,
{
    if !st.initialized || st.ip_assigned {
        return false;
    }
    if now - st.last_run < POLL_INTERVAL_MS {
        return false;
    }
    st.last_run = now;
    true
}

/// "IP assigned from relay: A.B.C.D/24"
pub open spec fn assigned_line(ip: Seq<u8>) -> Seq<u8> {
    seq![0x49u8, 0x50, 0x20, 0x61, 0x73, 0x73, 0x69, 0x67, 0x6e, 0x65, 0x64, 0x20, 0x66, 0x72, 0x6f, 0x6d,
        0x20, 0x72, 0x65, 0x6c, 0x61, 0x79, 0x3a, 0x20] + ipv4_text(ip) + seq![0x2fu8] + dec_text(
        PREFIX_LEN as nat,
    )
}

/// After the stack was polled: once an address is assigned the daemon stops
/// looking; the line to log is returned.
pub fn try_get_ip(st: &mut NetdState, cfg: &NetConfig) -> (r: Option<Vec<u8>>)
    ensures
        cfg.my_ip@ != seq![0u8, 0, 0, 0] ==> final(st).ip_assigned && (r matches Some(l) && l@
            == assigned_line(cfg.my_ip@)),
        cfg.my_ip@ == seq![0u8, 0, 0, 0] ==> r is None && final(st).ip_assigned == old(st).ip_assigned,
        final(st).initialized == old(st).initialized,
        final(st).last_run == old(st).last_run,
{
    if !is_ip_assigned(cfg) {
        return None;
    }
    let mut line: Vec<u8> = Vec::new();
    push_bytes(
        &mut line,
        &[0x49u8, 0x50, 0x20, 0x61, 0x73, 0x73, 0x69, 0x67, 0x6e, 0x65, 0x64, 0x20, 0x66, 0x72, 0x6f, 0x6d, 0x20, 0x72, 0x65, 0x6c, 0x61, 0x79, 0x3a, 0x20],
    );
    let mut ip_buf: [u8; 16] = [0u8; 16];
    proof {
        crate::net::utils::lemma_ipv4_text_len(cfg.my_ip@);
    }
    let n = format_ipv4(cfg.my_ip, &mut ip_buf);
    let ghost before = line@;
    let mut i: usize = 0;
    while i < n
        invariant
            n <= 16,
            ip_buf@.len() == 16,
            i <= n,
            line@ == before + ip_buf@.take(i as int),
        decreases n - i,
    {
        line.push(ip_buf[i]);
        i = i + 1;
        assert(line@ =~= before + ip_buf@.take(i as int));
    }
    line.push(0x2f);
    push_decimal(&mut line, PREFIX_LEN as u64);
    assert(line@ =~= assigned_line(cfg.my_ip@));
    st.ip_assigned = true;
    Some(line)
}

/// The daemon's step at `now`: start it if needed, then look for an address.
pub fn netd_service(st: &mut NetdState, now: i64) -> (look: bool)
    requires
        i64::MIN <= now - old(st).last_run <= i64::MAX,
    ensures
        final(st).initialized,
        look == (!old(st).ip_assigned && now - old(st).last_run >= POLL_INTERVAL_MS),
{
    if !st.initialized {
        let _ = init(st);
    }
    tick(st, now)
}

/// What a ping poll produced.
pub struct PingPoll {
    /// Terminal output (reply and timeout lines).
    pub output: Vec<u8>,
    /// A request to send: target and sequence number.
    pub send: Option<([u8; 4], u16)>,
}

/// "64 bytes from A.B.C.D: icmp_seq=N time=T ms\n"
pub open spec fn reply_line(from: Seq<u8>, seq: u16, rtt: i64) -> Seq<u8> {
    seq![0x36u8, 0x34, 0x20, 0x62, 0x79, 0x74, 0x65, 0x73, 0x20, 0x66, 0x72, 0x6f, 0x6d, 0x20]
        + ipv4_text(from) + seq![0x3au8, 0x20, 0x69, 0x63, 0x6d, 0x70, 0x5f, 0x73, 0x65, 0x71, 0x3d]
        + dec_text(seq as nat) + seq![0x20u8, 0x74, 0x69, 0x6d, 0x65, 0x3d] + dec_text((rtt as u64) as nat)
        + seq![0x20u8, 0x6d, 0x73, 0x0a]
}

/// "Request timeout for icmp_seq N\n"
pub open spec fn timeout_line(seq: u16) -> Seq<u8> {
    seq![0x52u8, 0x65, 0x71, 0x75, 0x65, 0x73, 0x74, 0x20, 0x74, 0x69, 0x6d, 0x65, 0x6f, 0x75, 0x74, 0x20,
        0x66, 0x6f, 0x72, 0x20, 0x69, 0x63, 0x6d, 0x70, 0x5f, 0x73, 0x65, 0x71, 0x20] + dec_text(
        seq as nat,
    ) + seq![0x0au8]
}

fn push_ip(line: &mut Vec<u8>, ip: [u8; 4])
    ensures
        final(line)@ == old(line)@ + ipv4_text(ip@),
{
    let mut ip_buf: [u8; 16] = [0u8; 16];
    proof {
        crate::net::utils::lemma_ipv4_text_len(ip@);
    }
    let n = format_ipv4(ip, &mut ip_buf);
    let mut i: usize = 0;
    while i < n
        invariant
            n <= 16,
            ip_buf@.len() == 16,
            i <= n,
            ip_buf@.take(n as int) == ipv4_text(ip@),
            line@ == old(line)@ + ip_buf@.take(i as int),
        decreases n - i,
    {
        line.push(ip_buf[i]);
        i = i + 1;
        assert(line@ =~= old(line)@ + ip_buf@.take(i as int));
    }
}

/// One ping step at `now`, given the reply the stack had (looked for only
/// while waiting): a reply with the current sequence number is counted and
/// printed; a request older than five seconds times out; a continuous ping
/// not waiting sends the next request once a second (the caller sends it and
/// reports back with `ping_sent`).
pub fn poll_network(ping: &mut PingState, now: i64, reply: Option<([u8; 4], u16, u16)>) -> (r: PingPoll)
    requires
        i64::MIN <= now - old(ping).sent_time <= i64::MAX,
        i64::MIN <= now - old(ping).last_send_time <= i64::MAX,
        old(ping).packets_received < u32::MAX,
        old(ping).packets_sent < u32::MAX,
        i64::MIN <= old(ping).total_rtt + (now - old(ping).sent_time) <= i64::MAX,
    ensures
        ({
            let rtt = (now - old(ping).sent_time) as i64;
            let got = old(ping).waiting && (reply matches Some((_, _, s)) && s == old(ping).seq);
            let timed_out = old(ping).waiting && now - old(ping).sent_time > PING_TIMEOUT_MS;
            let waiting = old(ping).waiting && !got && !timed_out;
            let sends = old(ping).continuous && !waiting && now - old(ping).last_send_time >= PING_INTERVAL_MS;
            &&& r.output@ == (if got {
                reply_line(reply->Some_0.0@, old(ping).seq, rtt)
            } else {
                Seq::empty()
            }) + (if timed_out {
                timeout_line(old(ping).seq)
            } else {
                Seq::empty()
            })
            &&& final(ping).packets_received == old(ping).packets_received + (if got { 1int } else { 0 })
            &&& final(ping).total_rtt == old(ping).total_rtt + (if got { rtt as int } else { 0 })
            &&& final(ping).waiting == waiting
            &&& if sends {
                &&& final(ping).seq == old(ping).seq.wrapping_add(1)
                &&& final(ping).sent_time == now
                &&& final(ping).last_send_time == now
                &&& final(ping).packets_sent == old(ping).packets_sent + 1
                &&& r.send == Some((old(ping).target, old(ping).seq.wrapping_add(1)))
            } else {
                &&& final(ping).seq == old(ping).seq
                &&& final(ping).sent_time == old(ping).sent_time
                &&& final(ping).last_send_time == old(ping).last_send_time
                &&& final(ping).packets_sent == old(ping).packets_sent
                &&& r.send is None
            }
            &&& final(ping).continuous == old(ping).continuous
            &&& final(ping).target == old(ping).target
        }),
{
    let mut output: Vec<u8> = Vec::new();
    if ping.waiting {
        match reply {
            Some((from, _ident, seq)) => {
                if seq == ping.seq {
                    let rtt = now - ping.sent_time;
                    ping.record_reply(rtt);
                    push_bytes(&mut output, &[0x36u8, 0x34, 0x20, 0x62, 0x79, 0x74, 0x65, 0x73, 0x20, 0x66, 0x72, 0x6f, 0x6d, 0x20]);
                    push_ip(&mut output, from);
                    push_bytes(&mut output, &[0x3au8, 0x20, 0x69, 0x63, 0x6d, 0x70, 0x5f, 0x73, 0x65, 0x71, 0x3d]);
                    push_decimal(&mut output, seq as u64);
                    push_bytes(&mut output, &[0x20u8, 0x74, 0x69, 0x6d, 0x65, 0x3d]);
                    push_decimal(&mut output, rtt as u64);
                    push_bytes(&mut output, &[0x20u8, 0x6d, 0x73, 0x0a]);
                    ping.waiting = false;
                }
            },
            None => {},
        }
        let ghost mid = output@;
        if now - ping.sent_time > PING_TIMEOUT_MS {
            push_bytes(&mut output, &[0x52u8, 0x65, 0x71, 0x75, 0x65, 0x73, 0x74, 0x20, 0x74, 0x69, 0x6d, 0x65, 0x6f, 0x75, 0x74, 0x20, 0x66, 0x6f, 0x72, 0x20, 0x69, 0x63, 0x6d, 0x70, 0x5f, 0x73, 0x65, 0x71, 0x20]);
            push_decimal(&mut output, ping.seq as u64);
            output.push(0x0a);
            ping.waiting = false;
        }
    }
    let mut send: Option<([u8; 4], u16)> = None;
    if ping.continuous && !ping.waiting {
        if now - ping.last_send_time >= PING_INTERVAL_MS {
            ping.seq = ping.seq.wrapping_add(1);
            ping.sent_time = now;
            ping.last_send_time = now;
            ping.packets_sent = ping.packets_sent + 1;
            send = Some((ping.target, ping.seq));
        }
    }
    proof {
        let rtt = (now - old(ping).sent_time) as i64;
        let got = old(ping).waiting && (reply matches Some((_, _, s)) && s == old(ping).seq);
        let timed_out = old(ping).waiting && now - old(ping).sent_time > PING_TIMEOUT_MS;
        assert(output@ =~= (if got {
            reply_line(reply->Some_0.0@, old(ping).seq, rtt)
        } else {
            Seq::empty()
        }) + (if timed_out {
            timeout_line(old(ping).seq)
        } else {
            Seq::empty()
        }));
    }
    PingPoll { output, send }
}

/// The request went out (or not): only a sent request is waited for.
pub fn ping_sent(ping: &mut PingState, ok: bool)
    ensures
        final(ping).waiting == (ok || old(ping).waiting),
        final(ping).seq == old(ping).seq,
        final(ping).packets_sent == old(ping).packets_sent,
        final(ping).packets_received == old(ping).packets_received,
{
    if ok {
        ping.waiting = true;
    }
}

/// "IP assigned (VirtIO): A.B.C.D/24"
pub open spec fn virtio_assigned_line(ip: Seq<u8>) -> Seq<u8> {
    seq![0x49u8, 0x50, 0x20, 0x61, 0x73, 0x73, 0x69, 0x67, 0x6e, 0x65, 0x64, 0x20, 0x28, 0x56, 0x69, 0x72, 0x74, 0x49, 0x4f, 0x29, 0x3a, 0x20] + ipv4_text(ip) + seq![0x2fu8] + dec_text(PREFIX_LEN as nat)
}

fn address_text(line: &mut Vec<u8>, ip: [u8; 4])
    ensures
        final(line)@ == old(line)@ + ipv4_text(ip@) + seq![0x2fu8] + dec_text(PREFIX_LEN as nat),
{
    let mut ip_buf: [u8; 16] = [0u8; 16];
    proof {
        crate::net::utils::lemma_ipv4_text_len(ip@);
    }
    let n = format_ipv4(ip, &mut ip_buf);
    let ghost before = line@;
    let mut i: usize = 0;
    while i < n
        invariant
            n <= 16,
            ip_buf@.len() == 16,
            ip_buf@.take(n as int) == ipv4_text(ip@),
            i <= n,
            line@ == before + ip_buf@.take(i as int),
        decreases n - i,
    {
        line.push(ip_buf[i]);
        i = i + 1;
        assert(line@ =~= before + ip_buf@.take(i as int));
    }
    line.push(0x2f);
    push_decimal(line, PREFIX_LEN as u64);
}

/// Look for the D1 controller's address: without its network state (absent,
/// or busy elsewhere) nothing happens; otherwise the state takes the relay's
/// address if one appeared, and once an address is assigned the daemon
/// stops looking and returns the line to log.
pub fn try_d1_emac_ip(st: &mut NetdState, cfg: &mut NetConfig, net: Option<&mut D1NetState>, config_ip: Option<[u8; 4]>)
    -> (r: Option<Vec<u8>>)
    ensures
        net is None ==> r is None && *final(st) == *old(st) && *final(cfg) == *old(cfg),
        net is Some && final(cfg).my_ip@ != seq![0u8, 0, 0, 0] ==> final(st).ip_assigned && (r matches Some(l)
            && l@ == assigned_line(final(cfg).my_ip@)),
        net is Some && final(cfg).my_ip@ == seq![0u8, 0, 0, 0] ==> r is None && final(st).ip_assigned
            == old(st).ip_assigned,
        final(st).initialized == old(st).initialized,
        final(st).last_run == old(st).last_run,
{
    match net {
        Some(n) => {
            let _ = n.poll(cfg, config_ip);
            try_get_ip(st, cfg)
        },
        None => None,
    }
}

/// Look for the address the virtio device was given at start: without its
/// network state nothing happens; once an address is assigned the daemon
/// stops looking and returns the line to log.
pub fn try_virtio_ip(st: &mut NetdState, cfg: &NetConfig, net_present: bool) -> (r: Option<Vec<u8>>)
    ensures
        !net_present ==> r is None && *final(st) == *old(st),
        net_present && cfg.my_ip@ != seq![0u8, 0, 0, 0] ==> final(st).ip_assigned && (r matches Some(l)
            && l@ == virtio_assigned_line(cfg.my_ip@)),
        net_present && cfg.my_ip@ == seq![0u8, 0, 0, 0] ==> r is None && *final(st) == *old(st),
        final(st).initialized == old(st).initialized,
        final(st).last_run == old(st).last_run,
{
    if !net_present || !is_ip_assigned(cfg) {
        return None;
    }
    let mut line: Vec<u8> = Vec::new();
    let lit: [u8; 22] = [0x49, 0x50, 0x20, 0x61, 0x73, 0x73, 0x69, 0x67, 0x6e, 0x65, 0x64, 0x20, 0x28, 0x56, 0x69, 0x72, 0x74, 0x49, 0x4f, 0x29, 0x3a, 0x20];
    assert(lit@ =~= seq![0x49u8, 0x50, 0x20, 0x61, 0x73, 0x73, 0x69, 0x67, 0x6e, 0x65, 0x64, 0x20, 0x28, 0x56, 0x69, 0x72, 0x74, 0x49, 0x4f, 0x29, 0x3a, 0x20]);
    push_bytes(&mut line, &lit);
    address_text(&mut line, cfg.my_ip);
    assert(line@ =~= virtio_assigned_line(cfg.my_ip@));
    st.ip_assigned = true;
    Some(line)
}

} // verus!
