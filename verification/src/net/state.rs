//! The network state the kernel's own logic keeps beside the TCP/IP stack:
//! the interface address, ARP resolution, hand-built ping frames, loopback
//! replies, client port choice and the server-socket table.
use vstd::prelude::*;
use std::collections::VecDeque;
use crate::net::config::{get_my_ip, set_my_ip, NetConfig, DEFAULT_IP_ADDR, GATEWAY, ICMP_IDENT};
use crate::net::patching::{
    checksum_range, fold16, internet_checksum, lemma_inserted_checksum_validates,
    reset_client_patching_state, reset_server_patching_for_port, segment_sum, with_word,
    TcpPatching, MAX_FRAME_LEN,
};
use crate::net::server::{ServerSocket, ServerSocketState, TcpServerManager, TcpSocketId};

verus! {

/// A ping to ourselves, answered on the next check.
#[derive(Clone, Copy)]
pub struct LoopbackReply {
    pub from: [u8; 4],
    pub ident: u16,
    pub seq: u16,
}

/// The one remembered ARP answer.
#[derive(Clone, Copy)]
pub struct ArpCache {
    pub ip: [u8; 4],
    pub mac: [u8; 6],
}

/// The state of a TCP socket as the stack reports it.
#[derive(Clone, Copy, PartialEq, Eq, Structural)]
pub enum TcpState {
    Closed,
    Listen,
    SynSent,
    SynReceived,
    Established,
    FinWait1,
    FinWait2,
    CloseWait,
    Closing,
    LastAck,
    TimeWait,
}

/// What the network logic keeps: the device's MAC address, the remembered
/// ARP answer, loopback ping replies waiting in arrival order, the server
/// sockets, whether the relay assigned an address, and the client port counter.
pub struct NetState {
    pub mac: [u8; 6],
    pub arp_cache: Option<ArpCache>,
    pub loopback_replies: VecDeque<LoopbackReply>,
    pub server_sockets: TcpServerManager,
    pub ip_assigned: bool,
    pub port_counter: u16,
}

// ─── Addresses ───────────────────────────────────────────────────────────────

/// The 48-bit MAC address as a number.
pub open spec fn mac_value(mac: [u8; 6]) -> u64 {
    ((mac[0] as u64) << 40u64) | ((mac[1] as u64) << 32u64) | ((mac[2] as u64) << 24u64) | ((
    mac[3] as u64) << 16u64) | ((mac[4] as u64) << 8u64) | (mac[5] as u64)
}

/// The IPv4 address as a number.
pub open spec fn ip_value(ip: [u8; 4]) -> u64 {
    ((ip[0] as u64) << 24u64) | ((ip[1] as u64) << 16u64) | ((ip[2] as u64) << 8u64) | (ip[3] as u64)
}

/// The seed the stack draws initial sequence numbers from: MAC, address and
/// boot time mixed, so that machines and boots differ.
pub open spec fn random_seed(mac: [u8; 6], ip: [u8; 4], time_ms: u64) -> u64 {
    mac_value(mac) ^ (ip_value(ip) << 16u64) ^ time_ms
}

/// Compute `random_seed`.
pub fn stack_seed(mac: [u8; 6], ip: [u8; 4], time_ms: u64) -> (seed: u64)
    ensures
        seed == random_seed(mac, ip, time_ms),
{
    let mac_part = ((mac[0] as u64) << 40u64) | ((mac[1] as u64) << 32u64) | ((mac[2] as u64)
        << 24u64) | ((mac[3] as u64) << 16u64) | ((mac[4] as u64) << 8u64) | (mac[5] as u64);
    let ip_part = ((ip[0] as u64) << 24u64) | ((ip[1] as u64) << 16u64) | ((ip[2] as u64) << 8u64)
        | (ip[3] as u64);
    mac_part ^ (ip_part << 16u64) ^ time_ms
}

/// Whether two IPv4 addresses are the same.
pub fn same_ip(a: [u8; 4], b: [u8; 4]) -> (r: bool)
    ensures
        r == (a == b),
{
    let r = a[0] == b[0] && a[1] == b[1] && a[2] == b[2] && a[3] == b[3];
    assert(r ==> a =~= b);
    r
}

pub open spec fn spec_is_loopback(addr: [u8; 4]) -> bool {
    addr[0] == 127
}

pub open spec fn spec_on_subnet(addr: [u8; 4], my_ip: [u8; 4]) -> bool {
    addr[0] == my_ip[0] && addr[1] == my_ip[1] && addr[2] == my_ip[2]
}

/// Where a ping goes.
#[derive(Clone, Copy)]
pub enum PingRoute {
    /// Answered locally.
    Loopback,
    /// Sent to this next hop.
    NextHop([u8; 4]),
}

/// Loopback and our own address are answered locally; on the local /24 the
/// target is the next hop, elsewhere the gateway.
pub open spec fn spec_ping_route(target: [u8; 4], my_ip: [u8; 4]) -> PingRoute {
    if spec_is_loopback(target) || target == my_ip {
        PingRoute::Loopback
    } else if spec_on_subnet(target, my_ip) {
        PingRoute::NextHop(target)
    } else {
        PingRoute::NextHop(GATEWAY)
    }
}

/// Where a ping goes, by the target: 127.x.y.z and our own address are
/// answered here; an address on our /24 is its own next hop; any other
/// address is reached through the gateway 10.0.2.2.
pub proof fn lemma_ping_next_hop(target: [u8; 4], my_ip: [u8; 4])
    ensures
        (target[0] == 127 || target == my_ip) <==> spec_ping_route(target, my_ip) is Loopback,
        target[0] != 127 && target != my_ip && target[0] == my_ip[0] && target[1] == my_ip[1] && target[2]
            == my_ip[2] ==> spec_ping_route(target, my_ip) == PingRoute::NextHop(target),
        target[0] != 127 && target != my_ip && (target[0] != my_ip[0] || target[1] != my_ip[1] || target[2]
            != my_ip[2]) ==> spec_ping_route(target, my_ip) == PingRoute::NextHop([10u8, 0, 2, 2]),
{
    assert(GATEWAY@ == seq![10u8, 0, 2, 2]);
    assert(GATEWAY == [10u8, 0, 2, 2]);
}

// ─── ARP ─────────────────────────────────────────────────────────────────────

/// A broadcast ARP request from `mac`/`my_ip` for `target_ip`.
pub open spec fn arp_request(mac: [u8; 6], my_ip: [u8; 4], target_ip: [u8; 4]) -> Seq<u8> {
    seq![0xffu8, 0xff, 0xff, 0xff, 0xff, 0xff] + mac@ + seq![0x08u8, 0x06, 0x00, 0x01, 0x08, 0x00, 6, 4, 0x00, 0x01]
        + mac@ + my_ip@ + seq![0u8, 0, 0, 0, 0, 0] + target_ip@
}

/// A received frame counts as an ARP reply when it is long enough and carries
/// the ARP ethertype.
pub open spec fn is_arp_reply(d: Seq<u8>) -> bool {
    d.len() >= 42 && d[12] == 0x08 && d[13] == 0x06
}

/// The sender MAC address of an ARP frame.
pub open spec fn arp_sender(d: Seq<u8>) -> Seq<u8> {
    d.subrange(22, 28)
}

/// The first of the (at most five) attempts whose received frame is an ARP reply.
pub open spec fn first_arp_reply(r: Seq<Option<Vec<u8>>>, i: int) -> Option<int>
    decreases 5 - i,
{
    if i < 0 || i >= 5 || i >= r.len() {
        None
    } else if r[i] matches Some(d) && is_arp_reply(d@) {
        Some(i)
    } else {
        first_arp_reply(r, i + 1)
    }
}

/// Whether ARP attempt `attempt` (re)sends the request, and how many spin
/// iterations it then waits: requests go out on the first and third
/// attempts, and the wait doubles from 100 000.
pub fn arp_attempt(attempt: u32) -> (r: (bool, u64))
    requires
        attempt < 5,
    ensures
        r.0 == (attempt == 0 || attempt == 2),
        r.1 == 100_000u64 << attempt,
{
    assert(100_000u64 << 0u32 == 100_000u64) by (bit_vector);
    assert(100_000u64 << 1u32 == 200_000u64) by (bit_vector);
    assert(100_000u64 << 2u32 == 400_000u64) by (bit_vector);
    assert(100_000u64 << 3u32 == 800_000u64) by (bit_vector);
    assert(100_000u64 << 4u32 == 1_600_000u64) by (bit_vector);
    let wait: u64 = if attempt == 0 {
        100_000
    } else if attempt == 1 {
        200_000
    } else if attempt == 2 {
        400_000
    } else if attempt == 3 {
        800_000
    } else {
        1_600_000
    };
    (attempt == 0 || attempt == 2, wait)
}

// ─── Ping frames ─────────────────────────────────────────────────────────────

/// The echo request's payload.
pub open spec fn ping_payload() -> Seq<u8> {
    seq![0x52u8, 0x49, 0x53, 0x43, 0x56, 0x5F, 0x50, 0x49, 0x4E, 0x47]
}

/// The IPv4 header of a ping, checksum still zero: 38 bytes in total,
/// identification ICMP_IDENT, TTL 64, protocol ICMP.
pub open spec fn ping_ip_header(my_ip: [u8; 4], target: [u8; 4]) -> Seq<u8> {
    seq![0x45u8, 0, 0, 38, 0x12, 0x34, 0, 0, 64, 1, 0, 0] + my_ip@ + target@
}

/// An ICMP echo request with identifier ICMP_IDENT, checksum still zero.
pub open spec fn echo_request(seq: u16) -> Seq<u8> {
    seq![8u8, 0, 0, 0, 0x12, 0x34, (seq / 256) as u8, (seq % 256) as u8] + ping_payload()
}

/// The ping frame before its checksums are filled in.
pub open spec fn ping_frame_zeroed(dst_mac: [u8; 6], src_mac: [u8; 6], my_ip: [u8; 4], target: [u8; 4], seq: u16) -> Seq<u8> {
    dst_mac@ + src_mac@ + seq![0x08u8, 0x00] + ping_ip_header(my_ip, target) + echo_request(seq)
}

/// The ping frame: Ethernet, IPv4 and ICMP echo request, with the IP header
/// checksum and then the ICMP checksum filled in.
pub open spec fn ping_frame(dst_mac: [u8; 6], src_mac: [u8; 6], my_ip: [u8; 4], target: [u8; 4], seq: u16) -> Seq<u8> {
    let f0 = ping_frame_zeroed(dst_mac, src_mac, my_ip, target, seq);
    let f1 = with_word(f0, 24, internet_checksum(f0.subrange(14, 34)));
    with_word(f1, 36, internet_checksum(f1.subrange(34, 52)))
}

/// Ping frame law: both checksums of a built ping frame validate.
pub proof fn lemma_ping_frame_checksums(dst_mac: [u8; 6], src_mac: [u8; 6], my_ip: [u8; 4], target: [u8; 4], seq: u16)
    ensures
        ping_frame(dst_mac, src_mac, my_ip, target, seq).len() == 52,
        fold16(segment_sum(ping_frame(dst_mac, src_mac, my_ip, target, seq).subrange(14, 34)))
            == 0xFFFF,
        fold16(segment_sum(ping_frame(dst_mac, src_mac, my_ip, target, seq).subrange(34, 52)))
            == 0xFFFF,
{
    let f0 = ping_frame_zeroed(dst_mac, src_mac, my_ip, target, seq);
    let h0 = f0.subrange(14, 34);
    let c1 = internet_checksum(h0);
    let f1 = with_word(f0, 24, c1);
    let m1 = f1.subrange(34, 52);
    let c2 = internet_checksum(m1);
    let f2 = with_word(f1, 36, c2);
    assert(f0.len() == 52);
    assert(h0[10] == 0 && h0[11] == 0);
    lemma_inserted_checksum_validates(h0, 5);
    assert(f2.subrange(14, 34) =~= with_word(h0, 10, c1));
    assert(m1[2] == 0 && m1[3] == 0);
    lemma_inserted_checksum_validates(m1, 1);
    assert(f2.subrange(34, 52) =~= with_word(m1, 2, c2));
}

/// Build the ping frame (see `ping_frame`).
pub fn build_ping_frame(dst_mac: [u8; 6], src_mac: [u8; 6], my_ip: [u8; 4], target: [u8; 4], seq: u16) -> (f: Vec<u8>)
    ensures
        f@ == ping_frame(dst_mac, src_mac, my_ip, target, seq),
{
    let mut f: Vec<u8> = Vec::new();
    let mut i: usize = 0;
    while i < 6
        invariant
            i <= 6,
            f@ == dst_mac@.subrange(0, i as int),
        decreases 6 - i,
    {
        f.push(dst_mac[i]);
        i = i + 1;
        assert(f@ =~= dst_mac@.subrange(0, i as int));
    }
    i = 0;
    while i < 6
        invariant
            i <= 6,
            f@ == dst_mac@ + src_mac@.subrange(0, i as int),
        decreases 6 - i,
    {
        f.push(src_mac[i]);
        i = i + 1;
        assert(f@ =~= dst_mac@ + src_mac@.subrange(0, i as int));
    }
    assert(dst_mac@.subrange(0, 6) =~= dst_mac@);
    assert(src_mac@.subrange(0, 6) =~= src_mac@);
    f.push(0x08);
    f.push(0x00);
    f.push(0x45);
    f.push(0);
    f.push(0);
    f.push(38);
    f.push(0x12);
    f.push(0x34);
    f.push(0);
    f.push(0);
    f.push(64);
    f.push(1);
    f.push(0);
    f.push(0);
    f.push(my_ip[0]);
    f.push(my_ip[1]);
    f.push(my_ip[2]);
    f.push(my_ip[3]);
    f.push(target[0]);
    f.push(target[1]);
    f.push(target[2]);
    f.push(target[3]);
    f.push(8);
    f.push(0);
    f.push(0);
    f.push(0);
    f.push(0x12);
    f.push(0x34);
    f.push((seq / 256) as u8);
    f.push((seq % 256) as u8);
    f.push(0x52);
    f.push(0x49);
    f.push(0x53);
    f.push(0x43);
    f.push(0x56);
    f.push(0x5F);
    f.push(0x50);
    f.push(0x49);
    f.push(0x4E);
    f.push(0x47);
    let ghost f0 = f@;
    assert(f0 =~= ping_frame_zeroed(dst_mac, src_mac, my_ip, target, seq));
    let c1 = checksum_range(f.as_slice(), 14, 34);
    f.set(24, (c1 / 256) as u8);
    f.set(25, (c1 % 256) as u8);
    let ghost f1 = f@;
    assert(f1 =~= with_word(f0, 24, c1 as nat));
    let c2 = checksum_range(f.as_slice(), 34, 52);
    f.set(36, (c2 / 256) as u8);
    f.set(37, (c2 % 256) as u8);
    assert(f@ =~= with_word(f1, 36, c2 as nat));
    f
}

/// Whether a received frame is an ICMP echo reply (IPv4, protocol ICMP,
/// type 0, at least 42 bytes).
pub open spec fn is_echo_reply(d: Seq<u8>) -> bool {
    d.len() >= 42 && d[12] == 0x08 && d[13] == 0x00 && d[23] == 1 && d[34] == 0
}

/// What an echo reply frame reports: source address, identifier, sequence.
pub open spec fn echo_reply_of(d: Seq<u8>) -> ([u8; 4], u16, u16) {
    (
        [d[26], d[27], d[28], d[29]],
        (d[38] as int * 256 + d[39] as int) as u16,
        (d[40] as int * 256 + d[41] as int) as u16,
    )
}

// ─── TCP ─────────────────────────────────────────────────────────────────────

/// A state's name.
pub open spec fn tcp_state_text(s: TcpState) -> Seq<char> {
    match s {
        TcpState::Closed => "Closed"@,
        TcpState::Listen => "Listen"@,
        TcpState::SynSent => "SynSent"@,
        TcpState::SynReceived => "SynReceived"@,
        TcpState::Established => "Established"@,
        TcpState::FinWait1 => "FinWait1"@,
        TcpState::FinWait2 => "FinWait2"@,
        TcpState::CloseWait => "CloseWait"@,
        TcpState::Closing => "Closing"@,
        TcpState::LastAck => "LastAck"@,
        TcpState::TimeWait => "TimeWait"@,
    }
}

/// The name of a TCP state.
pub fn tcp_state_name(s: TcpState) -> (r: &'static str)
    ensures
        r@ == tcp_state_text(s),
{
    match s {
        TcpState::Closed => "Closed",
        TcpState::Listen => "Listen",
        TcpState::SynSent => "SynSent",
        TcpState::SynReceived => "SynReceived",
        TcpState::Established => "Established",
        TcpState::FinWait1 => "FinWait1",
        TcpState::FinWait2 => "FinWait2",
        TcpState::CloseWait => "CloseWait",
        TcpState::Closing => "Closing",
        TcpState::LastAck => "LastAck",
        TcpState::TimeWait => "TimeWait",
    }
}

/// The local port a client connection uses, from the stepped counter and the
/// time: in 49152..65535.
pub open spec fn client_port(counter: u16, timestamp_ms: i64) -> u16 {
    (49152 + ((timestamp_ms as u16) as int + counter as int) % 65536 % 16383) as u16
}

/// What a client connection needs first.
#[derive(Clone, Copy, PartialEq, Eq, Structural)]
pub struct ConnectPlan {
    /// Abort the previous connection (and poll until it is closed) first.
    pub abort_first: bool,
    /// The local port to connect from.
    pub local_port: u16,
}

/// How accepting on a listening socket went.
#[derive(Clone, Copy)]
pub enum AcceptStep {
    /// The slot is not a listening socket: nothing to accept.
    NotListening,
    /// A connection is established with this peer; the slot now counts as connected.
    Accepted { id: TcpSocketId, remote_ip: [u8; 4], remote_port: u16 },
    /// Nothing yet.
    Wait,
    /// The socket closed: listen on this port again.
    Relisten { port: u16 },
}

pub open spec fn listening_slot(m: &TcpServerManager, id: TcpSocketId) -> bool {
    (id as int) < m.sockets@.len() && m.sockets@[id as int].state == ServerSocketState::Listening
        && m.sockets@[id as int].handle is Some
}

impl NetState {
    pub open spec fn wf(&self) -> bool {
        self.server_sockets.wf()
    }

    /// Set up the network state for a device with this MAC address. The
    /// relay's address, if it already gave one, becomes ours (otherwise the
    /// default stands until `poll` sees one). Returns the state and the seed
    /// for the stack's sequence numbers.
    pub fn new(mac: [u8; 6], config_ip: Option<[u8; 4]>, cfg: &mut NetConfig, time_ms: u64) -> (r: (NetState, u64))
        ensures
            r.0.wf(),
            r.0.mac == mac,
            r.0.arp_cache is None,
            r.0.loopback_replies@.len() == 0,
            r.0.ip_assigned == config_ip is Some,
            r.0.port_counter == 0,
            forall|i: int| 0 <= i < r.0.server_sockets.sockets@.len() ==> r.0.server_sockets.sockets@[i]
                == crate::net::server::free_socket(),
            final(cfg).my_ip == match config_ip {
                Some(ip) => ip,
                None => DEFAULT_IP_ADDR,
            },
            r.1 == random_seed(mac, final(cfg).my_ip, time_ms),
    {
        let my_ip = match config_ip {
            Some(ip) => ip,
            None => DEFAULT_IP_ADDR,
        };
        set_my_ip(cfg, my_ip);
        let seed = stack_seed(mac, my_ip, time_ms);
        let st = NetState {
            mac,
            arp_cache: None,
            loopback_replies: VecDeque::new(),
            server_sockets: TcpServerManager::new(),
            ip_assigned: config_ip.is_some(),
            port_counter: 0,
        };
        (st, seed)
    }

    /// Take the relay's address once it appears: returns the newly assigned
    /// address (for the stack's interface), or `None` when nothing changed.
    pub fn poll(&mut self, cfg: &mut NetConfig, config_ip: Option<[u8; 4]>) -> (r: Option<[u8; 4]>)
        ensures
            r == if !old(self).ip_assigned { config_ip } else { None },
            final(self).ip_assigned == (old(self).ip_assigned || config_ip is Some),
            r matches Some(ip) ==> final(cfg).my_ip == ip,
            r is None ==> *final(cfg) == *old(cfg),
            final(self).mac == old(self).mac,
            final(self).arp_cache == old(self).arp_cache,
            final(self).loopback_replies@ == old(self).loopback_replies@,
            final(self).server_sockets.sockets@ == old(self).server_sockets.sockets@,
            final(self).port_counter == old(self).port_counter,
    {
        if !self.ip_assigned {
            match config_ip {
                Some(ip) => {
                    set_my_ip(cfg, ip);
                    self.ip_assigned = true;
                    Some(ip)
                },
                None => None,
            }
        } else {
            None
        }
    }

    /// Our MAC address.
    pub fn mac(&self) -> (r: [u8; 6])
        ensures
            r == self.mac,
    {
        self.mac
    }

    /// The broadcast ARP request for `target_ip`, from our MAC and address.
    pub fn send_arp_request(&self, cfg: &NetConfig, target_ip: [u8; 4]) -> (f: Vec<u8>)
        ensures
            f@ == arp_request(self.mac, cfg.my_ip, target_ip),
            f@.len() == 42,
    {
        let my_ip = get_my_ip(cfg);
        let mut f: Vec<u8> = Vec::new();
        let mut i: usize = 0;
        while i < 6
            invariant
                i <= 6,
                f@ == seq![0xffu8, 0xff, 0xff, 0xff, 0xff, 0xff].subrange(0, i as int),
            decreases 6 - i,
        {
            f.push(0xff);
            i = i + 1;
            assert(f@ =~= seq![0xffu8, 0xff, 0xff, 0xff, 0xff, 0xff].subrange(0, i as int));
        }
        let ghost p0 = f@;
        i = 0;
        while i < 6
            invariant
                i <= 6,
                f@ == p0 + self.mac@.subrange(0, i as int),
            decreases 6 - i,
        {
            f.push(self.mac[i]);
            i = i + 1;
            assert(f@ =~= p0 + self.mac@.subrange(0, i as int));
        }
        f.push(0x08);
        f.push(0x06);
        f.push(0x00);
        f.push(0x01);
        f.push(0x08);
        f.push(0x00);
        f.push(6);
        f.push(4);
        f.push(0x00);
        f.push(0x01);
        let ghost p1 = f@;
        i = 0;
        while i < 6
            invariant
                i <= 6,
                f@ == p1 + self.mac@.subrange(0, i as int),
            decreases 6 - i,
        {
            f.push(self.mac[i]);
            i = i + 1;
            assert(f@ =~= p1 + self.mac@.subrange(0, i as int));
        }
        f.push(my_ip[0]);
        f.push(my_ip[1]);
        f.push(my_ip[2]);
        f.push(my_ip[3]);
        f.push(0);
        f.push(0);
        f.push(0);
        f.push(0);
        f.push(0);
        f.push(0);
        f.push(target_ip[0]);
        f.push(target_ip[1]);
        f.push(target_ip[2]);
        f.push(target_ip[3]);
        assert(self.mac@.subrange(0, 6) =~= self.mac@);
        assert(f@ =~= arp_request(self.mac, my_ip, target_ip));
        f
    }

    /// The MAC address of `target_ip`: from the cache when it holds that
    /// address; otherwise from the first of the (at most five) attempts whose
    /// received frame is an ARP reply, which is then cached.
    /// `received[k]` is the frame attempt `k` received, if any (see `arp_attempt`).
    pub fn resolve_mac(&mut self, target_ip: [u8; 4], received: &Vec<Option<Vec<u8>>>) -> (r: Option<[u8; 6]>)
        ensures
            old(self).arp_cache is Some && old(self).arp_cache.unwrap().ip == target_ip ==> r == Some(
                old(self).arp_cache.unwrap().mac,
            ) && final(self).arp_cache == old(self).arp_cache,
            !(old(self).arp_cache is Some && old(self).arp_cache.unwrap().ip == target_ip) ==> match first_arp_reply(
                received@,
                0,
            ) {
                Some(k) => received@[k] matches Some(d) && r matches Some(m) && m@ == arp_sender(d@)
                    && final(self).arp_cache == Some(ArpCache { ip: target_ip, mac: m }),
                None => r is None && final(self).arp_cache == old(self).arp_cache,
            },
            final(self).mac == old(self).mac,
            final(self).loopback_replies@ == old(self).loopback_replies@,
            final(self).server_sockets.sockets@ == old(self).server_sockets.sockets@,
            final(self).ip_assigned == old(self).ip_assigned,
            final(self).port_counter == old(self).port_counter,
    {
        match self.arp_cache {
            Some(c) => {
                if same_ip(c.ip, target_ip) {
                    return Some(c.mac);
                }
            },
            None => {},
        }
        let mut attempt: usize = 0;
        while attempt < 5 && attempt < received.len()
            invariant
                attempt <= 5,
                first_arp_reply(received@, 0) == first_arp_reply(received@, attempt as int),
                *self == *old(self),
                !(self.arp_cache is Some && self.arp_cache.unwrap().ip == target_ip),
            decreases 5 - attempt,
        {
            match &received[attempt] {
                Some(d) => {
                    if d.len() >= 42 && d[12] == 0x08 && d[13] == 0x06 {
                        let mac: [u8; 6] = [d[22], d[23], d[24], d[25], d[26], d[27]];
                        assert(mac@ =~= arp_sender(d@));
                        self.arp_cache = Some(ArpCache { ip: target_ip, mac });
                        return Some(mac);
                    }
                },
                None => {},
            }
            attempt = attempt + 1;
        }
        None
    }

    /// Whether `addr` is a loopback address (127.x.x.x).
    pub fn is_loopback(addr: [u8; 4]) -> (r: bool)
        ensures
            r == spec_is_loopback(addr),
    {
        addr[0] == 127
    }

    /// Whether `addr` is our own address.
    pub fn is_self(cfg: &NetConfig, addr: [u8; 4]) -> (r: bool)
        ensures
            r == (addr == cfg.my_ip),
    {
        same_ip(addr, get_my_ip(cfg))
    }

    /// Whether `addr` is on our /24.
    pub fn is_on_local_subnet(cfg: &NetConfig, addr: [u8; 4]) -> (r: bool)
        ensures
            r == spec_on_subnet(addr, cfg.my_ip),
    {
        let my_ip = get_my_ip(cfg);
        addr[0] == my_ip[0] && addr[1] == my_ip[1] && addr[2] == my_ip[2]
    }

    /// Where a ping to `target` goes (see `spec_ping_route`).
    pub fn ping_route(cfg: &NetConfig, target: [u8; 4]) -> (r: PingRoute)
        ensures
            r == spec_ping_route(target, cfg.my_ip),
    {
        if Self::is_loopback(target) || Self::is_self(cfg, target) {
            PingRoute::Loopback
        } else if Self::is_on_local_subnet(cfg, target) {
            PingRoute::NextHop(target)
        } else {
            PingRoute::NextHop(GATEWAY)
        }
    }

    /// Send a ping. Loopback and our own address queue a reply and return
    /// `Ok(None)`. Otherwise the next hop's MAC address is resolved from the
    /// cache or `received` (see `resolve_mac`); without one the ping fails;
    /// with one the frame to transmit is returned.
    pub fn send_ping(&mut self, cfg: &NetConfig, target: [u8; 4], seq: u16, received: &Vec<Option<Vec<u8>>>)
        -> (r: Result<Option<Vec<u8>>, &'static str>)
        ensures
            spec_ping_route(target, cfg.my_ip) is Loopback ==> (r matches Ok(None)
                && final(self).loopback_replies@ == old(self).loopback_replies@.push(
                LoopbackReply { from: target, ident: ICMP_IDENT, seq },
            ) && final(self).arp_cache == old(self).arp_cache),
            spec_ping_route(target, cfg.my_ip) matches PingRoute::NextHop(hop) ==> {
                &&& final(self).loopback_replies@ == old(self).loopback_replies@
                &&& match r {
                    Ok(Some(f)) => exists|m: [u8; 6]|
                        f@ == ping_frame(m, old(self).mac, cfg.my_ip, target, seq) && (
                        final(self).arp_cache == Some(ArpCache { ip: hop, mac: m })),
                    Ok(None) => false,
                    Err(e) => e@ == "Failed to resolve MAC address"@ && final(self).arp_cache
                        == old(self).arp_cache && !(old(self).arp_cache is Some && old(self).arp_cache.unwrap().ip == hop)
                        && first_arp_reply(received@, 0) is None,
                }
            },
            final(self).mac == old(self).mac,
            final(self).server_sockets.sockets@ == old(self).server_sockets.sockets@,
            final(self).ip_assigned == old(self).ip_assigned,
            final(self).port_counter == old(self).port_counter,
    {
        match Self::ping_route(cfg, target) {
            PingRoute::Loopback => {
                self.loopback_replies.push_back(LoopbackReply { from: target, ident: ICMP_IDENT, seq });
                Ok(None)
            },
            PingRoute::NextHop(hop) => {
                match self.resolve_mac(hop, received) {
                    Some(dst_mac) => {
                        let f = build_ping_frame(dst_mac, self.mac, get_my_ip(cfg), target, seq);
                        Ok(Some(f))
                    },
                    None => Err("Failed to resolve MAC address"),
                }
            },
        }
    }

    /// The next echo reply: a queued loopback reply first; otherwise the
    /// received frame, if it is an echo reply carrying our identifier.
    pub fn check_ping_reply(&mut self, frame: Option<&[u8]>) -> (r: Option<([u8; 4], u16, u16)>)
        ensures
            old(self).loopback_replies@.len() > 0 ==> {
                let q = old(self).loopback_replies@[0];
                &&& r == Some((q.from, q.ident, q.seq))
                &&& final(self).loopback_replies@ == old(self).loopback_replies@.drop_first()
            },
            old(self).loopback_replies@.len() == 0 ==> final(self).loopback_replies@.len() == 0
                && r == match frame {
                Some(d) => if is_echo_reply(d@) && echo_reply_of(d@).1 == ICMP_IDENT {
                    Some(echo_reply_of(d@))
                } else {
                    None
                },
                None => None,
            },
            final(self).mac == old(self).mac,
            final(self).arp_cache == old(self).arp_cache,
            final(self).server_sockets.sockets@ == old(self).server_sockets.sockets@,
            final(self).ip_assigned == old(self).ip_assigned,
            final(self).port_counter == old(self).port_counter,
    {
        match self.loopback_replies.pop_front() {
            Some(q) => {
                return Some((q.from, q.ident, q.seq));
            },
            None => {},
        }
        match frame {
            Some(d) => {
                if d.len() >= 42 && d[12] == 0x08 && d[13] == 0x00 && d[23] == 1 && d[34] == 0 {
                    let ident: u16 = (d[38] as u16) * 256 + d[39] as u16;
                    let seq: u16 = (d[40] as u16) * 256 + d[41] as u16;
                    let src: [u8; 4] = [d[26], d[27], d[28], d[29]];
                    if ident == ICMP_IDENT {
                        return Some((src, ident, seq));
                    }
                }
                None
            },
            None => None,
        }
    }

    /// Prepare a client connection: abort a connection that is not closed,
    /// forget the client patching state, and step the port counter to pick
    /// the local port.
    pub fn tcp_connect(&mut self, patching: &mut TcpPatching, initial: TcpState, timestamp_ms: i64) -> (p: ConnectPlan)
        requires
            old(patching).wf(),
        ensures
            p.abort_first == (initial != TcpState::Closed),
            final(self).port_counter == old(self).port_counter.wrapping_add(1),
            p.local_port == client_port(final(self).port_counter, timestamp_ms),
            49152 <= p.local_port < 65535,
            final(patching).wf(),
            final(patching).client == crate::net::patching::idle_client_state(),
            final(patching).servers@ == old(patching).servers@,
            final(self).mac == old(self).mac,
            final(self).arp_cache == old(self).arp_cache,
            final(self).loopback_replies@ == old(self).loopback_replies@,
            final(self).server_sockets.sockets@ == old(self).server_sockets.sockets@,
            final(self).ip_assigned == old(self).ip_assigned,
    {
        reset_client_patching_state(patching);
        self.port_counter = self.port_counter.wrapping_add(1);
        let t = timestamp_ms as u16;
        let local_port: u16 = 49152 + t.wrapping_add(self.port_counter) % 16383;
        ConnectPlan { abort_first: initial != TcpState::Closed, local_port }
    }

    /// The client connection is established.
    pub fn tcp_is_connected(s: TcpState) -> (r: bool)
        ensures
            r == (s == TcpState::Established),
    {
        s == TcpState::Established
    }

    /// The client connection is being set up.
    pub fn tcp_is_connecting(s: TcpState) -> (r: bool)
        ensures
            r == (s == TcpState::SynSent || s == TcpState::SynReceived),
    {
        s == TcpState::SynSent || s == TcpState::SynReceived
    }

    /// The client connection failed (closed, or already winding down).
    pub fn tcp_connection_failed(s: TcpState) -> (r: bool)
        ensures
            r == (s == TcpState::Closed || s == TcpState::TimeWait),
    {
        s == TcpState::Closed || s == TcpState::TimeWait
    }

    /// The outcome of sending: refused when the socket may not send, failed
    /// when the stack took nothing, else how much it took.
    pub fn tcp_send(may_send: bool, sent: Option<usize>) -> (r: Result<usize, &'static str>)
        ensures
            !may_send ==> (r matches Err(e) && e@ == "TCP socket cannot send"@),
            may_send ==> match sent {
                Some(n) => r == Ok::<usize, &'static str>(n),
                None => r matches Err(e) && e@ == "Failed to send TCP data"@,
            },
    {
        if !may_send {
            return Err("TCP socket cannot send");
        }
        match sent {
            Some(n) => Ok(n),
            None => Err("Failed to send TCP data"),
        }
    }

    /// The outcome of receiving: when the socket may not receive, a peer
    /// close (close-wait or closed) is an error and anything else reads
    /// nothing; otherwise what was read, a failed read counting as nothing.
    pub fn tcp_recv(may_recv: bool, s: TcpState, received: Option<usize>) -> (r: Result<usize, &'static str>)
        ensures
            !may_recv && (s == TcpState::CloseWait || s == TcpState::Closed) ==> (r matches Err(e)
                && e@ == "Connection closed by peer"@),
            !may_recv && !(s == TcpState::CloseWait || s == TcpState::Closed) ==> r == Ok::<
                usize,
                &'static str,
            >(0),
            may_recv ==> r == Ok::<usize, &'static str>(
                match received {
                    Some(n) => n,
                    None => 0,
                },
            ),
    {
        if !may_recv {
            if s == TcpState::CloseWait || s == TcpState::Closed {
                return Err("Connection closed by peer");
            }
            return Ok(0);
        }
        match received {
            Some(n) => Ok(n),
            None => Ok(0),
        }
    }

    /// Data is waiting: the socket may receive and its queue is not empty.
    pub fn tcp_can_recv(may_recv: bool, recv_queue: usize) -> (r: bool)
        ensures
            r == (may_recv && recv_queue > 0),
    {
        may_recv && recv_queue > 0
    }

    /// The stack handle of a server socket, if its slot exists and has one.
    pub fn server_handle(&self, id: TcpSocketId) -> (r: Option<usize>)
        ensures
            r == if (id as int) < self.server_sockets.sockets@.len() {
                self.server_sockets.sockets@[id as int].handle
            } else {
                None
            },
    {
        match self.server_sockets.get(id) {
            Some(slot) => slot.handle,
            None => None,
        }
    }

    /// The name of a server socket's state: "Invalid" without a socket.
    pub fn tcp_server_state(&self, id: TcpSocketId, s: TcpState) -> (r: &'static str)
        ensures
            (if (id as int) < self.server_sockets.sockets@.len() {
                self.server_sockets.sockets@[id as int].handle
            } else {
                None::<usize>
            }) is None ==> r@ == "Invalid"@,
            (if (id as int) < self.server_sockets.sockets@.len() {
                self.server_sockets.sockets@[id as int].handle
            } else {
                None::<usize>
            }) is Some ==> r@ == tcp_state_text(s),
    {
        match self.server_handle(id) {
            Some(_h) => tcp_state_name(s),
            None => "Invalid",
        }
    }

    /// Listen on `port`: take the first free slot for the socket the stack
    /// creates, failing when none is free.
    pub fn tcp_listen_slot(&self) -> (r: Result<TcpSocketId, &'static str>)
        requires
            self.wf(),
        ensures
            match crate::net::server::first_free_from(self.server_sockets.sockets@, 0) {
                Some(i) => r == Ok::<TcpSocketId, &'static str>(i as u8),
                None => r matches Err(e) && e@ == "No free server socket slots"@,
            },
    {
        let mut i: usize = 0;
        while i < self.server_sockets.sockets.len()
            invariant
                i <= self.server_sockets.sockets@.len(),
                self.server_sockets.sockets@.len() == crate::net::server::MAX_SERVER_SOCKETS,
                crate::net::server::first_free_from(self.server_sockets.sockets@, 0)
                    == crate::net::server::first_free_from(self.server_sockets.sockets@, i as int),
            decreases self.server_sockets.sockets@.len() - i,
        {
            if self.server_sockets.sockets[i].state == ServerSocketState::Free {
                return Ok(i as u8);
            }
            i = i + 1;
        }
        Err("No free server socket slots")
    }

    /// Record the listening socket: when the stack's listen succeeded (with
    /// the socket added under `handle`) the slot listens on `port`; a failed
    /// listen is reported and changes nothing.
    pub fn tcp_listen(&mut self, id: TcpSocketId, port: u16, handle: Option<usize>) -> (r: Result<TcpSocketId, &'static str>)
        ensures
            match handle {
                Some(h) => r == Ok::<TcpSocketId, &'static str>(id) && final(self).server_sockets.sockets@
                    == if (id as int) < old(self).server_sockets.sockets@.len() {
                    old(self).server_sockets.sockets@.update(
                        id as int,
                        ServerSocket {
                            handle: Some(h),
                            port,
                            state: ServerSocketState::Listening,
                            ..old(self).server_sockets.sockets@[id as int]
                        },
                    )
                } else {
                    old(self).server_sockets.sockets@
                },
                None => r matches Err(e) && e@ == "Failed to listen on port"@
                    && final(self).server_sockets.sockets@ == old(self).server_sockets.sockets@,
            },
            final(self).mac == old(self).mac,
            final(self).arp_cache == old(self).arp_cache,
            final(self).loopback_replies@ == old(self).loopback_replies@,
            final(self).ip_assigned == old(self).ip_assigned,
            final(self).port_counter == old(self).port_counter,
    {
        match handle {
            Some(h) => {
                match self.server_sockets.get_mut(id) {
                    Some(slot) => {
                        let mut slot = slot;
                        slot.handle = Some(h);
                        slot.port = port;
                        slot.state = ServerSocketState::Listening;
                        self.server_sockets.set(id, slot);
                    },
                    None => {},
                }
                Ok(id)
            },
            None => Err("Failed to listen on port"),
        }
    }

    /// The listening socket to look at for `tcp_accept` (see `accept_target`).
    pub fn tcp_accept_target(&self, listen_id: TcpSocketId) -> (r: Option<(usize, u16)>)
        ensures
            r == accept_target_spec(self.server_sockets, listen_id),
    {
        accept_target(&self.server_sockets, listen_id)
    }

    /// Accept on a listening socket (see `accept_on`).
    pub fn tcp_accept(&mut self, listen_id: TcpSocketId, s: TcpState, remote: Option<([u8; 4], u16)>) -> (r: AcceptStep)
        ensures
            accept_spec(old(self).server_sockets, final(self).server_sockets, listen_id, s, remote, r),
            final(self).mac == old(self).mac,
            final(self).arp_cache == old(self).arp_cache,
            final(self).loopback_replies@ == old(self).loopback_replies@,
            final(self).ip_assigned == old(self).ip_assigned,
            final(self).port_counter == old(self).port_counter,
    {
        accept_on(&mut self.server_sockets, listen_id, s, remote)
    }

    /// Close a server socket: returns its stack handle (to close and poll)
    /// and marks the slot closing; a slot without a socket is left alone.
    pub fn tcp_close_on(&mut self, id: TcpSocketId) -> (r: Option<usize>)
        ensures
            r == if (id as int) < old(self).server_sockets.sockets@.len() {
                old(self).server_sockets.sockets@[id as int].handle
            } else {
                None
            },
            r is Some ==> final(self).server_sockets.sockets@ == old(self).server_sockets.sockets@.update(
                id as int,
                ServerSocket {
                    state: ServerSocketState::Closing,
                    ..old(self).server_sockets.sockets@[id as int]
                },
            ),
            r is None ==> final(self).server_sockets.sockets@ == old(self).server_sockets.sockets@,
            final(self).mac == old(self).mac,
            final(self).arp_cache == old(self).arp_cache,
            final(self).loopback_replies@ == old(self).loopback_replies@,
            final(self).ip_assigned == old(self).ip_assigned,
            final(self).port_counter == old(self).port_counter,
    {
        match self.server_sockets.get_mut(id) {
            Some(slot) => {
                match slot.handle {
                    Some(h) => {
                        let mut slot = slot;
                        slot.state = ServerSocketState::Closing;
                        self.server_sockets.set(id, slot);
                        Some(h)
                    },
                    None => None,
                }
            },
            None => None,
        }
    }

    /// Give a server socket's slot back: returns the stack handle to remove,
    /// frees the slot and forgets the patching state of its port.
    pub fn tcp_release_server(&mut self, patching: &mut TcpPatching, id: TcpSocketId) -> (r: Option<usize>)
        requires
            old(patching).wf(),
        ensures
            (id as int) < old(self).server_sockets.sockets@.len() ==> {
                &&& r == old(self).server_sockets.sockets@[id as int].handle
                &&& final(self).server_sockets.sockets@ == old(self).server_sockets.sockets@.update(
                    id as int,
                    crate::net::server::free_socket(),
                )
                &&& final(patching).servers@ == match crate::net::patching::find_active(
                    old(patching).servers@,
                    old(self).server_sockets.sockets@[id as int].port,
                ) {
                    Some(i) => old(patching).servers@.update(i, crate::net::patching::idle_server_state()),
                    None => old(patching).servers@,
                }
                &&& final(patching).client == old(patching).client
            },
            (id as int) >= old(self).server_sockets.sockets@.len() ==> r is None
                && final(self).server_sockets.sockets@ == old(self).server_sockets.sockets@
                && *final(patching) == *old(patching),
            final(patching).wf(),
            final(self).mac == old(self).mac,
            final(self).arp_cache == old(self).arp_cache,
            final(self).loopback_replies@ == old(self).loopback_replies@,
            final(self).ip_assigned == old(self).ip_assigned,
            final(self).port_counter == old(self).port_counter,
    {
        match self.server_sockets.get_mut(id) {
            Some(slot) => {
                proof {
                    crate::net::patching::lemma_find_active_result(patching.servers@, slot.port, 0);
                }
                self.server_sockets.release(id);
                reset_server_patching_for_port(patching, slot.port);
                slot.handle
            },
            None => None,
        }
    }
}

/// The listening socket to look at: its stack handle and port, when the slot
/// exists, listens and has a socket.
pub open spec fn accept_target_spec(m: TcpServerManager, listen_id: TcpSocketId) -> Option<(usize, u16)> {
    if listening_slot(&m, listen_id) {
        Some((m.sockets@[listen_id as int].handle.unwrap(), m.sockets@[listen_id as int].port))
    } else {
        None
    }
}

/// Accepting on `listen_id`, whose socket is in state `s` with peer `remote`,
/// turns table `m0` into `m1` and answers `r`: a slot that does not listen
/// answers `NotListening`; an established socket with a peer is accepted and
/// its slot counts as connected; a closed or time-wait socket listens again;
/// otherwise wait.
pub open spec fn accept_spec(
    m0: TcpServerManager,
    m1: TcpServerManager,
    listen_id: TcpSocketId,
    s: TcpState,
    remote: Option<([u8; 4], u16)>,
    r: AcceptStep,
) -> bool {
    if !listening_slot(&m0, listen_id) {
        r is NotListening && m1.sockets@ == m0.sockets@
    } else {
        let slot = m0.sockets@[listen_id as int];
        if s == TcpState::Established && remote is Some {
            &&& r matches AcceptStep::Accepted { id, remote_ip, remote_port } && id == listen_id
                && remote_ip == remote.unwrap().0 && remote_port == remote.unwrap().1
            &&& m1.sockets@ == m0.sockets@.update(
                listen_id as int,
                ServerSocket { state: ServerSocketState::Connected, ..slot },
            )
        } else {
            &&& m1.sockets@ == m0.sockets@
            &&& if s == TcpState::Closed || s == TcpState::TimeWait {
                r matches AcceptStep::Relisten { port } && port == slot.port
            } else {
                r is Wait
            }
        }
    }
}

/// The listening socket to look at for `accept_on` (see `accept_target_spec`).
pub fn accept_target(m: &TcpServerManager, listen_id: TcpSocketId) -> (r: Option<(usize, u16)>)
    ensures
        r == accept_target_spec(*m, listen_id),
{
    match m.get(listen_id) {
        Some(slot) => {
            if slot.state != ServerSocketState::Listening {
                return None;
            }
            match slot.handle {
                Some(h) => Some((h, slot.port)),
                None => None,
            }
        },
        None => None,
    }
}

/// Accept on a listening socket (see `accept_spec`).
pub fn accept_on(m: &mut TcpServerManager, listen_id: TcpSocketId, s: TcpState, remote: Option<([u8; 4], u16)>) -> (r: AcceptStep)
    ensures
        accept_spec(*old(m), *final(m), listen_id, s, remote, r),
{
    let port = match accept_target(m, listen_id) {
        Some((_h, p)) => p,
        None => {
            return AcceptStep::NotListening;
        },
    };
    match s {
        TcpState::Established => {
            match remote {
                Some((ip, rport)) => {
                    match m.get_mut(listen_id) {
                        Some(slot) => {
                            let mut slot = slot;
                            slot.state = ServerSocketState::Connected;
                            m.set(listen_id, slot);
                        },
                        None => {},
                    }
                    AcceptStep::Accepted { id: listen_id, remote_ip: ip, remote_port: rport }
                },
                None => AcceptStep::Wait,
            }
        },
        TcpState::Closed | TcpState::TimeWait => AcceptStep::Relisten { port },
        _ => AcceptStep::Wait,
    }
}

} // verus!
