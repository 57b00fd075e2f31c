//! The packet path between the network device and the TCP/IP stack.
//!
//! Every received frame passes through [`VirtioRxToken::consume`] before the
//! stack sees it, and every frame the stack builds passes through
//! [`VirtioTxToken::consume`] before it is sent. Both track TCP sequence numbers
//! in [`TcpPatching`] and rewrite the acknowledgement (and a server's first
//! sequence) numbers that the stack gets wrong, recomputing the checksum after
//! any rewrite.
use vstd::prelude::*;
use crate::net::patching::{
    be16, be32, claim_slot, claimed_index, find_active, get_server_patching,
    find_server_patching, find_server_patching_mut, recalculate_tcp_checksum, with_tcp_checksum,
    tracks_port, ClientPatchingState, ServerPatchingState, TcpPatching, MAX_FRAME_LEN,
};

verus! {

/// The TCP header fields the patching logic reads from a frame.
#[derive(Clone, Copy)]
pub struct TcpSegmentInfo {
    pub tcp_offset: usize,
    pub seq: u32,
    pub ack: u32,
    pub flags: u8,
    pub src_port: u16,
    pub dst_port: u16,
    pub payload_len: usize,
}

impl TcpSegmentInfo {
    pub open spec fn syn(self) -> bool {
        self.flags & 0x02 != 0
    }

    pub open spec fn fin(self) -> bool {
        self.flags & 0x01 != 0
    }

    pub open spec fn ack_flag(self) -> bool {
        self.flags & 0x10 != 0
    }

    pub open spec fn rst(self) -> bool {
        self.flags & 0x04 != 0
    }

    /// Sequence space the segment uses: its payload, plus one each for SYN and FIN.
    pub open spec fn seq_consumed(self) -> u32 {
        (self.payload_len + (if self.syn() { 1int } else { 0 }) + (if self.fin() { 1int } else { 0 })) as u32
    }
}

/// IPv4 header length in bytes (low nibble of byte 14, in 32-bit words).
pub open spec fn ip_header_len(b: Seq<u8>) -> int {
    ((b[14] % 16) as int) * 4
}

/// Offset of the TCP header in the frame.
pub open spec fn tcp_header_offset(b: Seq<u8>) -> int {
    14 + ip_header_len(b)
}

/// TCP header length in bytes (high nibble of the data-offset byte).
pub open spec fn tcp_header_len(b: Seq<u8>, o: int) -> int {
    ((b[o + 12] / 16) as int) * 4
}

pub open spec fn sat_sub(a: int, b: int) -> int {
    if a > b {
        a - b
    } else {
        0
    }
}

/// An Ethernet frame carrying IPv4 and TCP, long enough to hold the headers the
/// receive path reads.
pub open spec fn is_rx_tcp_frame(b: Seq<u8>) -> bool {
    b.len() >= 54 && b[12] == 0x08 && b[13] == 0x00 && b[23] == 6
}

/// The receive path reads the TCP data-offset byte before it checks the frame's
/// length against the TCP header; such a frame must hold that byte.
pub open spec fn rx_frame_readable(b: Seq<u8>) -> bool {
    is_rx_tcp_frame(b) ==> tcp_header_offset(b) + 12 < b.len()
}

/// The IP total length the receive path uses: the header's, unless the header
/// claims less than half of what arrived.
pub open spec fn rx_ip_total_len(b: Seq<u8>) -> int {
    let header = be16(b, 16) as int;
    let actual = b.len() - 14;
    if header < actual / 2 {
        actual
    } else {
        header
    }
}

/// The segment fields at `o`, with the given IP total length.
pub open spec fn segment_at(b: Seq<u8>, o: int, ip_total_len: int) -> TcpSegmentInfo {
    TcpSegmentInfo {
        tcp_offset: o as usize,
        seq: be32(b, o + 4) as u32,
        ack: be32(b, o + 8) as u32,
        flags: b[o + 13],
        src_port: be16(b, o) as u16,
        dst_port: be16(b, o + 2) as u16,
        payload_len: sat_sub(sat_sub(ip_total_len, ip_header_len(b)), tcp_header_len(b, o)) as usize,
    }
}

/// The TCP segment of a received frame, when the receive path patches it.
pub open spec fn rx_segment(b: Seq<u8>) -> Option<TcpSegmentInfo> {
    let o = tcp_header_offset(b);
    if is_rx_tcp_frame(b) && b.len() >= o + 20 {
        Some(segment_at(b, o, rx_ip_total_len(b)))
    } else {
        None
    }
}

/// The TCP segment of an outgoing frame, when the transmit path patches it.
pub open spec fn tx_segment(b: Seq<u8>) -> Option<TcpSegmentInfo> {
    let o = tcp_header_offset(b);
    if b.len() >= 40 && b[12] == 0x08 && b[13] == 0x00 && b.len() >= o + 20 && b[23] == 6 {
        Some(segment_at(b, o, be16(b, 16) as int))
    } else {
        None
    }
}

/// The frame with the big-endian 32-bit value `v` written at `i`.
pub open spec fn set_be32(b: Seq<u8>, i: int, v: u32) -> Seq<u8> {
    b.update(i, (v / 0x1000000) as u8).update(i + 1, ((v / 0x10000) % 256) as u8).update(
        i + 2,
        ((v / 256) % 256) as u8,
    ).update(i + 3, (v % 256) as u8)
}

// ─── Receive path ─────────────────────────────────────────────────────────────

/// A SYN from a client claims a slot for the port it reached and records what the
/// first ACK must be; a SYN-ACK from a server records the client connection.
pub open spec fn rx_syn_step(s: Seq<ServerPatchingState>, c: ClientPatchingState, g: TcpSegmentInfo) -> (
    Seq<ServerPatchingState>,
    ClientPatchingState,
) {
    if g.syn() && !g.ack_flag() {
        let s1 = claim_slot(s, g.dst_port);
        match claimed_index(s, g.dst_port) {
            Some(i) => (
                s1.update(
                    i,
                    ServerPatchingState {
                        last_syn_seq: Some(g.seq),
                        expected_ack: Some(g.seq.wrapping_add(1)),
                        ..s1[i]
                    },
                ),
                c,
            ),
            None => (s, c),
        }
    } else if g.syn() && g.ack_flag() {
        (
            s,
            ClientPatchingState {
                server_seq: Some(g.seq),
                remote_port: Some(g.src_port),
                expected_ack: Some(g.seq.wrapping_add(1)),
                ..c
            },
        )
    } else {
        (s, c)
    }
}

/// Data from the peer moves the ACK we owe forward, unless it repeats data
/// already covered.
pub open spec fn rx_data_step(s: Seq<ServerPatchingState>, c: ClientPatchingState, g: TcpSegmentInfo) -> (
    Seq<ServerPatchingState>,
    ClientPatchingState,
) {
    if g.ack_flag() && !g.syn() && !g.rst() && g.payload_len > 0 {
        let new_expected = g.seq.wrapping_add(g.seq_consumed());
        let s1 = match find_active(s, g.dst_port) {
            Some(i) => {
                let duplicate = match s[i].expected_ack {
                    Some(cur) => new_expected <= cur || g.seq < cur.wrapping_sub(g.seq_consumed()),
                    None => false,
                };
                if duplicate {
                    s
                } else {
                    s.update(i, ServerPatchingState { expected_ack: Some(new_expected), ..s[i] })
                }
            },
            None => s,
        };
        let c1 = if c.remote_port == Some(g.src_port) {
            ClientPatchingState { expected_ack: Some(new_expected), ..c }
        } else {
            c
        };
        (s1, c1)
    } else {
        (s, c)
    }
}

/// A bare FIN from the peer is owed an ACK one past its sequence number.
pub open spec fn rx_fin_step(s: Seq<ServerPatchingState>, c: ClientPatchingState, g: TcpSegmentInfo) -> (
    Seq<ServerPatchingState>,
    ClientPatchingState,
) {
    if g.fin() && g.ack_flag() && !g.syn() && g.payload_len == 0 {
        let next = g.seq.wrapping_add(1);
        let s1 = match find_active(s, g.dst_port) {
            Some(i) => s.update(i, ServerPatchingState { expected_ack: Some(next), ..s[i] }),
            None => s,
        };
        let c1 = if c.remote_port == Some(g.src_port) {
            ClientPatchingState { expected_ack: Some(next), ..c }
        } else {
            c
        };
        (s1, c1)
    } else {
        (s, c)
    }
}

/// The tracking a received segment causes.
pub open spec fn rx_track(s: Seq<ServerPatchingState>, c: ClientPatchingState, g: TcpSegmentInfo) -> (
    Seq<ServerPatchingState>,
    ClientPatchingState,
) {
    let a = rx_syn_step(s, c, g);
    let d = rx_data_step(a.0, a.1, g);
    rx_fin_step(d.0, d.1, g)
}

/// The ACK a server slot says the peer should be sending: what our data asks for,
/// else one past our initial sequence number.
pub open spec fn server_ack_source(st: ServerPatchingState) -> Option<u32> {
    match st.peer_ack_expected {
        Some(e) => Some(e),
        None => match st.our_seq {
            Some(q) => Some(q.wrapping_add(1)),
            None => None,
        },
    }
}

/// The same for the client connection.
pub open spec fn client_ack_source(c: ClientPatchingState) -> Option<u32> {
    match c.peer_ack_expected {
        Some(e) => Some(e),
        None => match c.our_seq {
            Some(q) => Some(q.wrapping_add(1)),
            None => None,
        },
    }
}

/// The first active slot at or after `i` that has an ACK to offer.
pub open spec fn any_server_ack_from(s: Seq<ServerPatchingState>, i: int) -> Option<u32>
    decreases s.len() - i,
{
    if i < 0 || i >= s.len() {
        None
    } else if s[i].active && server_ack_source(s[i]) is Some {
        server_ack_source(s[i])
    } else {
        any_server_ack_from(s, i + 1)
    }
}

/// The ACK value written into a received segment whose ACK is suspiciously low
/// (below 1000): the slot of the port it reached, else the client connection if
/// it comes from the client's remote port, else (below 10) any active slot and
/// then the client record.
pub open spec fn rx_ack_patch(s: Seq<ServerPatchingState>, c: ClientPatchingState, g: TcpSegmentInfo) -> Option<u32> {
    if g.ack_flag() && g.ack < 1000 && !g.rst() {
        let by_port = match find_active(s, g.dst_port) {
            Some(i) => server_ack_source(s[i]),
            None => None,
        };
        let by_client = if c.remote_port == Some(g.src_port) {
            client_ack_source(c)
        } else {
            None
        };
        if by_port is Some {
            by_port
        } else if by_client is Some {
            by_client
        } else if g.ack < 10 {
            let any = any_server_ack_from(s, 0);
            if any is Some {
                any
            } else {
                client_ack_source(c)
            }
        } else {
            None
        }
    } else {
        None
    }
}

// ─── Transmit path ────────────────────────────────────────────────────────────

/// What sending a segment changes: the server table, the client record, and the
/// sequence and acknowledgement numbers written into the segment, if any.
pub open spec fn tx_outcome(s: Seq<ServerPatchingState>, c: ClientPatchingState, g: TcpSegmentInfo) -> (
    Seq<ServerPatchingState>,
    ClientPatchingState,
    Option<u32>,
    Option<u32>,
) {
    let c0 = if g.syn() && !g.ack_flag() {
        ClientPatchingState { our_seq: Some(g.seq), peer_ack_expected: Some(g.seq.wrapping_add(1)), ..c }
    } else {
        c
    };
    if g.syn() && g.ack_flag() {
        match find_active(s, g.src_port) {
            Some(i) => {
                let st = s[i];
                let st1 = ServerPatchingState {
                    our_seq: Some(g.seq),
                    synack_seq: Some(g.seq),
                    peer_ack_expected: Some(g.seq.wrapping_add(1)),
                    smoltcp_ack: Some(g.ack),
                    ..st
                };
                let correct = server_owed_ack(st);
                match correct {
                    Some(v) => if v != g.ack {
                        (
                            s.update(i, ServerPatchingState { seq_offset: Some(v.wrapping_sub(g.ack)), ..st1 }),
                            c0,
                            None,
                            Some(v),
                        )
                    } else {
                        (s.update(i, st1), c0, None, None)
                    },
                    None => (s.update(i, st1), c0, None, None),
                }
            },
            None => (s, c0, None, None),
        }
    } else if g.ack_flag() && !g.syn() && !g.rst() {
        let consumed = g.seq_consumed();
        let (s1, seq_write, server_ack) = match find_active(s, g.src_port) {
            Some(i) => {
                let st = s[i];
                let st1 = if consumed > 0 {
                    ServerPatchingState { peer_ack_expected: Some(g.seq.wrapping_add(consumed)), ..st }
                } else {
                    st
                };
                let seq_write = match st.synack_seq {
                    Some(y) => if g.seq == y {
                        Some(y.wrapping_add(1))
                    } else {
                        None
                    },
                    None => None,
                };
                let ack_write = match server_owed_ack(st) {
                    Some(v) => if v != g.ack {
                        Some(v)
                    } else {
                        None
                    },
                    None => None,
                };
                (s.update(i, st1), seq_write, ack_write)
            },
            None => (s, None, None),
        };
        if server_ack is None && c0.remote_port == Some(g.dst_port) {
            let c1 = if consumed > 0 {
                ClientPatchingState { peer_ack_expected: Some(g.seq.wrapping_add(consumed)), ..c0 }
            } else {
                c0
            };
            let client_ack = match client_owed_ack(c0) {
                Some(v) => if v != g.ack {
                    Some(v)
                } else {
                    None
                },
                None => None,
            };
            (s1, c1, seq_write, client_ack)
        } else {
            (s1, c0, seq_write, server_ack)
        }
    } else {
        (s, c0, None, None)
    }
}

/// The ACK a server slot says we owe: the tracked one, else one past the client's SYN.
pub open spec fn server_owed_ack(st: ServerPatchingState) -> Option<u32> {
    match st.expected_ack {
        Some(e) => Some(e),
        None => match st.last_syn_seq {
            Some(q) => Some(q.wrapping_add(1)),
            None => None,
        },
    }
}

/// The ACK the client connection owes: the tracked one, else one past the server's SYN-ACK.
pub open spec fn client_owed_ack(c: ClientPatchingState) -> Option<u32> {
    match c.expected_ack {
        Some(e) => Some(e),
        None => match c.server_seq {
            Some(q) => Some(q.wrapping_add(1)),
            None => None,
        },
    }
}

/// The outgoing frame after the writes of `tx_outcome`.
pub open spec fn tx_frame(b: Seq<u8>, o: int, seq_write: Option<u32>, ack_write: Option<u32>) -> Seq<u8> {
    let b1 = match seq_write {
        Some(v) => set_be32(b, o + 4, v),
        None => b,
    };
    let b2 = match ack_write {
        Some(v) => set_be32(b1, o + 8, v),
        None => b1,
    };
    if seq_write is Some || ack_write is Some {
        with_tcp_checksum(b2, o)
    } else {
        b
    }
}

/// Patching an incoming frame changes only the acknowledgement number and
/// the checksum of its TCP header at `o`; its length stays.
pub proof fn lemma_rx_patch_bytes(b: Seq<u8>, o: int, v: u32)
    requires
        0 <= o,
        o + 20 <= b.len(),
    ensures
        with_tcp_checksum(set_be32(b, o + 8, v), o).len() == b.len(),
        forall|k: int|
            0 <= k < b.len() && !(o + 8 <= k < o + 12) && !(o + 16 <= k < o + 18) ==> #[trigger] with_tcp_checksum(
                set_be32(b, o + 8, v),
                o,
            )[k] == b[k],
{
}

/// Patching an outgoing frame changes only the sequence number, the
/// acknowledgement number and the checksum of its TCP header at `o`; its
/// length stays.
pub proof fn lemma_tx_patch_bytes(b: Seq<u8>, o: int, seq_write: Option<u32>, ack_write: Option<u32>)
    requires
        0 <= o,
        o + 20 <= b.len(),
    ensures
        tx_frame(b, o, seq_write, ack_write).len() == b.len(),
        forall|k: int|
            0 <= k < b.len() && !(o + 4 <= k < o + 12) && !(o + 16 <= k < o + 18) ==> #[trigger] tx_frame(
                b,
                o,
                seq_write,
                ack_write,
            )[k] == b[k],
{
}

// ─── Executable path ──────────────────────────────────────────────────────────

fn read_be16(b: &Vec<u8>, i: usize) -> (v: u16)
    requires
        i + 1 < b@.len(),
        b@.len() <= MAX_FRAME_LEN,
    ensures
        v as nat == be16(b@, i as int),
{
    (b[i] as u16) * 256 + b[i + 1] as u16
}

fn read_be32(b: &Vec<u8>, i: usize) -> (v: u32)
    requires
        i + 3 < b@.len(),
        b@.len() <= MAX_FRAME_LEN,
    ensures
        v as nat == be32(b@, i as int),
{
    let hi = read_be16(b, i);
    let lo = read_be16(b, i + 2);
    (hi as u32) * 65536 + lo as u32
}

fn write_be32(b: &mut Vec<u8>, i: usize, v: u32)
    requires
        i + 3 < old(b)@.len(),
        old(b)@.len() <= MAX_FRAME_LEN,
    ensures
        final(b)@ == set_be32(old(b)@, i as int, v),
{
    b.set(i, (v / 0x1000000) as u8);
    b.set(i + 1, ((v / 0x10000) % 256) as u8);
    b.set(i + 2, ((v / 256) % 256) as u8);
    b.set(i + 3, (v % 256) as u8);
}

fn segment_fields(b: &Vec<u8>, o: usize, ip_total_len: usize) -> (g: TcpSegmentInfo)
    requires
        b@.len() >= 15,
        b@.len() <= MAX_FRAME_LEN,
        o + 20 <= b@.len(),
        o == tcp_header_offset(b@),
    ensures
        g == segment_at(b@, o as int, ip_total_len as int),
{
    let ihl: usize = (b[14] % 16) as usize * 4;
    let thl: usize = (b[o + 12] / 16) as usize * 4;
    let tcp_len: usize = ip_total_len.saturating_sub(ihl);
    let payload_len: usize = tcp_len.saturating_sub(thl);
    TcpSegmentInfo {
        tcp_offset: o,
        seq: read_be32(b, o + 4),
        ack: read_be32(b, o + 8),
        flags: b[o + 13],
        src_port: read_be16(b, o),
        dst_port: read_be16(b, o + 2),
        payload_len,
    }
}

/// The TCP segment of a received frame, as the receive path reads it.
pub fn parse_rx_segment(b: &Vec<u8>) -> (r: Option<TcpSegmentInfo>)
    requires
        rx_frame_readable(b@),
        b@.len() <= MAX_FRAME_LEN,
    ensures
        r == rx_segment(b@),
        r matches Some(g) ==> g.payload_len <= MAX_FRAME_LEN && g.tcp_offset + 20 <= b@.len(),
{
    if b.len() >= 54 && b[12] == 0x08 && b[13] == 0x00 && b[23] == 6 {
        let ihl: usize = (b[14] % 16) as usize * 4;
        let header_len: usize = read_be16(b, 16) as usize;
        let actual: usize = b.len() - 14;
        let ip_total_len = if header_len < actual / 2 {
            actual
        } else {
            header_len
        };
        let tcp_offset = 14 + ihl;
        if b.len() >= tcp_offset + 20 {
            Some(segment_fields(b, tcp_offset, ip_total_len))
        } else {
            None
        }
    } else {
        None
    }
}

/// The TCP segment of an outgoing frame, as the transmit path reads it.
pub fn parse_tx_segment(b: &Vec<u8>) -> (r: Option<TcpSegmentInfo>)
    requires
        b@.len() <= MAX_FRAME_LEN,
    ensures
        r == tx_segment(b@),
        r matches Some(g) ==> g.payload_len <= 65535 && g.tcp_offset + 20 <= b@.len(),
{
    if b.len() >= 40 && b[12] == 0x08 && b[13] == 0x00 {
        let ihl: usize = (b[14] % 16) as usize * 4;
        let ip_total_len: usize = read_be16(b, 16) as usize;
        let tcp_offset = 14 + ihl;
        if b.len() >= tcp_offset + 20 && b[23] == 6 {
            Some(segment_fields(b, tcp_offset, ip_total_len))
        } else {
            None
        }
    } else {
        None
    }
}

fn seq_consumed(g: &TcpSegmentInfo) -> (n: u32)
    requires
        g.payload_len <= MAX_FRAME_LEN,
    ensures
        n == g.seq_consumed(),
{
    let mut n: u32 = g.payload_len as u32;
    if g.flags & 0x02 != 0 {
        n = n + 1;
    }
    if g.flags & 0x01 != 0 {
        n = n + 1;
    }
    n
}

fn server_ack_source_of(st: &ServerPatchingState) -> (r: Option<u32>)
    ensures
        r == server_ack_source(*st),
{
    match st.peer_ack_expected {
        Some(e) => Some(e),
        None => match st.our_seq {
            Some(q) => Some(q.wrapping_add(1)),
            None => None,
        },
    }
}

fn client_ack_source_of(c: &ClientPatchingState) -> (r: Option<u32>)
    ensures
        r == client_ack_source(*c),
{
    match c.peer_ack_expected {
        Some(e) => Some(e),
        None => match c.our_seq {
            Some(q) => Some(q.wrapping_add(1)),
            None => None,
        },
    }
}

fn server_owed_ack_of(st: &ServerPatchingState) -> (r: Option<u32>)
    ensures
        r == server_owed_ack(*st),
{
    match st.expected_ack {
        Some(e) => Some(e),
        None => match st.last_syn_seq {
            Some(q) => Some(q.wrapping_add(1)),
            None => None,
        },
    }
}

fn client_owed_ack_of(c: &ClientPatchingState) -> (r: Option<u32>)
    ensures
        r == client_owed_ack(*c),
{
    match c.expected_ack {
        Some(e) => Some(e),
        None => match c.server_seq {
            Some(q) => Some(q.wrapping_add(1)),
            None => None,
        },
    }
}

fn is_client_port(c: &ClientPatchingState, port: u16) -> (r: bool)
    ensures
        r == (c.remote_port == Some(port)),
{
    match c.remote_port {
        Some(rp) => rp == port,
        None => false,
    }
}

fn any_server_ack(p: &TcpPatching) -> (r: Option<u32>)
    ensures
        r == any_server_ack_from(p.servers@, 0),
{
    let mut i: usize = 0;
    while i < p.servers.len()
        invariant
            i <= p.servers@.len(),
            any_server_ack_from(p.servers@, 0) == any_server_ack_from(p.servers@, i as int),
        decreases p.servers@.len() - i,
    {
        if p.servers[i].active {
            let source = server_ack_source_of(&p.servers[i]);
            if source.is_some() {
                return source;
            }
        }
        i = i + 1;
    }
    None
}

/// Apply the tracking a received segment causes.
pub fn rx_track_update(p: &mut TcpPatching, g: TcpSegmentInfo)
    requires
        old(p).wf(),
        g.payload_len <= MAX_FRAME_LEN,
    ensures
        final(p).wf(),
        (final(p).servers@, final(p).client) == rx_track(old(p).servers@, old(p).client, g),
{
    let syn = g.flags & 0x02 != 0;
    let fin = g.flags & 0x01 != 0;
    let ack = g.flags & 0x10 != 0;
    let rst = g.flags & 0x04 != 0;
    let consumed = seq_consumed(&g);
    if syn && !ack {
        match get_server_patching(p, g.dst_port) {
            Some(i) => {
                let mut st = p.servers[i];
                st.last_syn_seq = Some(g.seq);
                st.expected_ack = Some(g.seq.wrapping_add(1));
                p.servers.set(i, st);
            },
            None => {},
        }
    } else if syn && ack {
        p.client.server_seq = Some(g.seq);
        p.client.remote_port = Some(g.src_port);
        p.client.expected_ack = Some(g.seq.wrapping_add(1));
    }
    let ghost after_syn = (p.servers@, p.client);
    assert(after_syn == rx_syn_step(old(p).servers@, old(p).client, g));
    if ack && !syn && !rst && g.payload_len > 0 {
        let new_expected = g.seq.wrapping_add(consumed);
        match find_server_patching_mut(p, g.dst_port) {
            Some(i) => {
                let mut st = p.servers[i];
                let duplicate = match st.expected_ack {
                    Some(cur) => new_expected <= cur || g.seq < cur.wrapping_sub(consumed),
                    None => false,
                };
                if !duplicate {
                    st.expected_ack = Some(new_expected);
                    p.servers.set(i, st);
                }
            },
            None => {},
        }
        if is_client_port(&p.client, g.src_port) {
            p.client.expected_ack = Some(new_expected);
        }
    }
    let ghost after_data = (p.servers@, p.client);
    assert(after_data == rx_data_step(after_syn.0, after_syn.1, g));
    if fin && ack && !syn && g.payload_len == 0 {
        let next = g.seq.wrapping_add(1);
        match find_server_patching_mut(p, g.dst_port) {
            Some(i) => {
                let mut st = p.servers[i];
                st.expected_ack = Some(next);
                p.servers.set(i, st);
            },
            None => {},
        }
        if is_client_port(&p.client, g.src_port) {
            p.client.expected_ack = Some(next);
        }
    }
}

/// The ACK value to write into a received segment, if it needs one.
pub fn rx_ack_value(p: &TcpPatching, g: TcpSegmentInfo) -> (r: Option<u32>)
    ensures
        r == rx_ack_patch(p.servers@, p.client, g),
{
    let ack = g.flags & 0x10 != 0;
    let rst = g.flags & 0x04 != 0;
    if ack && g.ack < 1000 && !rst {
        let by_port = match find_server_patching(p, g.dst_port) {
            Some(i) => server_ack_source_of(&p.servers[i]),
            None => None,
        };
        if by_port.is_some() {
            return by_port;
        }
        let by_client = if is_client_port(&p.client, g.src_port) {
            client_ack_source_of(&p.client)
        } else {
            None
        };
        if by_client.is_some() {
            return by_client;
        }
        if g.ack < 10 {
            let any = any_server_ack(p);
            if any.is_some() {
                any
            } else {
                client_ack_source_of(&p.client)
            }
        } else {
            None
        }
    } else {
        None
    }
}

/// Track a received frame and patch its ACK if the stack would otherwise see a
/// wrong one.
pub fn patch_incoming_frame(buffer: &mut Vec<u8>, p: &mut TcpPatching)
    requires
        old(p).wf(),
        old(buffer)@.len() <= MAX_FRAME_LEN,
        rx_frame_readable(old(buffer)@),
    ensures
        final(p).wf(),
        match rx_segment(old(buffer)@) {
            Some(g) => {
                let t = rx_track(old(p).servers@, old(p).client, g);
                &&& final(p).servers@ == t.0
                &&& final(p).client == t.1
                &&& final(buffer)@ == match rx_ack_patch(t.0, t.1, g) {
                    Some(v) => with_tcp_checksum(
                        set_be32(old(buffer)@, g.tcp_offset + 8, v),
                        g.tcp_offset as int,
                    ),
                    None => old(buffer)@,
                }
            },
            None => {
                &&& final(p).servers@ == old(p).servers@
                &&& final(p).client == old(p).client
                &&& final(buffer)@ == old(buffer)@
            },
        },
{
    match parse_rx_segment(buffer) {
        Some(g) => {
            rx_track_update(p, g);
            match rx_ack_value(p, g) {
                Some(v) => {
                    write_be32(buffer, g.tcp_offset + 8, v);
                    recalculate_tcp_checksum(buffer, g.tcp_offset);
                },
                None => {},
            }
        },
        None => {},
    }
}

/// Apply what sending a segment changes in the tracking, and return the
/// sequence and acknowledgement numbers to write into it.
pub fn tx_update(p: &mut TcpPatching, g: TcpSegmentInfo) -> (r: (Option<u32>, Option<u32>))
    requires
        old(p).wf(),
        g.payload_len <= MAX_FRAME_LEN,
    ensures
        final(p).wf(),
        (final(p).servers@, final(p).client, r.0, r.1) == tx_outcome(old(p).servers@, old(p).client, g),
{
    let syn = g.flags & 0x02 != 0;
    let ack = g.flags & 0x10 != 0;
    let rst = g.flags & 0x04 != 0;
    let consumed = seq_consumed(&g);
    if syn && !ack {
        p.client.our_seq = Some(g.seq);
        p.client.peer_ack_expected = Some(g.seq.wrapping_add(1));
    }
    if syn && ack {
        match find_server_patching_mut(p, g.src_port) {
            Some(i) => {
                let mut st = p.servers[i];
                let correct = server_owed_ack_of(&st);
                st.our_seq = Some(g.seq);
                st.synack_seq = Some(g.seq);
                st.peer_ack_expected = Some(g.seq.wrapping_add(1));
                st.smoltcp_ack = Some(g.ack);
                match correct {
                    Some(v) => {
                        if v != g.ack {
                            st.seq_offset = Some(v.wrapping_sub(g.ack));
                            p.servers.set(i, st);
                            return (None, Some(v));
                        }
                        p.servers.set(i, st);
                        (None, None)
                    },
                    None => {
                        p.servers.set(i, st);
                        (None, None)
                    },
                }
            },
            None => (None, None),
        }
    } else if ack && !syn && !rst {
        let mut seq_write: Option<u32> = None;
        let mut server_ack: Option<u32> = None;
        match find_server_patching_mut(p, g.src_port) {
            Some(i) => {
                let mut st = p.servers[i];
                let owed = server_owed_ack_of(&st);
                match st.synack_seq {
                    Some(y) => {
                        if g.seq == y {
                            seq_write = Some(y.wrapping_add(1));
                        }
                    },
                    None => {},
                }
                match owed {
                    Some(v) => {
                        if v != g.ack {
                            server_ack = Some(v);
                        }
                    },
                    None => {},
                }
                if consumed > 0 {
                    st.peer_ack_expected = Some(g.seq.wrapping_add(consumed));
                }
                p.servers.set(i, st);
            },
            None => {},
        }
        if server_ack.is_none() && is_client_port(&p.client, g.dst_port) {
            let owed = client_owed_ack_of(&p.client);
            if consumed > 0 {
                p.client.peer_ack_expected = Some(g.seq.wrapping_add(consumed));
            }
            let client_ack = match owed {
                Some(v) => if v != g.ack {
                    Some(v)
                } else {
                    None
                },
                None => None,
            };
            (seq_write, client_ack)
        } else {
            (seq_write, server_ack)
        }
    } else {
        (None, None)
    }
}

/// Track an outgoing frame and patch its sequence and ACK numbers where the
/// stack got them wrong.
pub fn patch_outgoing_frame(buffer: &mut Vec<u8>, p: &mut TcpPatching)
    requires
        old(p).wf(),
        old(buffer)@.len() <= MAX_FRAME_LEN,
    ensures
        final(p).wf(),
        match tx_segment(old(buffer)@) {
            Some(g) => {
                let t = tx_outcome(old(p).servers@, old(p).client, g);
                &&& final(p).servers@ == t.0
                &&& final(p).client == t.1
                &&& final(buffer)@ == tx_frame(old(buffer)@, g.tcp_offset as int, t.2, t.3)
            },
            None => {
                &&& final(p).servers@ == old(p).servers@
                &&& final(p).client == old(p).client
                &&& final(buffer)@ == old(buffer)@
            },
        },
{
    match parse_tx_segment(buffer) {
        Some(g) => {
            let (seq_write, ack_write) = tx_update(p, g);
            let o = g.tcp_offset;
            match seq_write {
                Some(v) => write_be32(buffer, o + 4, v),
                None => {},
            }
            match ack_write {
                Some(v) => write_be32(buffer, o + 8, v),
                None => {},
            }
            if seq_write.is_some() || ack_write.is_some() {
                recalculate_tcp_checksum(buffer, o);
            }
        },
        None => {},
    }
}

// ─── Tokens ───────────────────────────────────────────────────────────────────

/// What the device tells the stack about itself.
#[derive(Clone, Copy)]
pub struct DeviceCapabilities {
    /// Frames are Ethernet frames.
    pub ethernet: bool,
    /// Largest IP packet the device carries.
    pub max_transmission_unit: usize,
    /// Frames handed over per poll, if limited.
    pub max_burst_size: Option<usize>,
}

/// The network device as the stack sees it: frames in, frames out, with the
/// patching state they pass through.
pub struct DeviceWrapper {
    pub patching: TcpPatching,
}

/// A received frame, copied out of the device's ring, waiting for the stack.
pub struct VirtioRxToken {
    pub buffer: Vec<u8>,
}

/// Permission to send one frame.
pub struct VirtioTxToken {
    /// Length of the frame the stack asked to build.
    pub len: usize,
}

impl DeviceWrapper {
    pub fn new() -> (d: Self)
        ensures
            d.patching.wf(),
    {
        DeviceWrapper { patching: TcpPatching::new() }
    }

    /// Ethernet, the standard 1500-byte MTU, one frame per burst.
    pub fn capabilities(&self) -> (c: DeviceCapabilities)
        ensures
            c.ethernet,
            c.max_transmission_unit == 1500,
            c.max_burst_size == Some(1usize),
    {
        DeviceCapabilities { ethernet: true, max_transmission_unit: 1500, max_burst_size: Some(1) }
    }

    /// A received frame, if the device had one, becomes a receive token paired
    /// with a transmit token for the reply.
    pub fn receive(&mut self, frame: Option<Vec<u8>>) -> (r: Option<(VirtioRxToken, VirtioTxToken)>)
        ensures
            final(self).patching == old(self).patching,
            frame is None <==> r is None,
            r matches Some(t) ==> frame == Some(t.0.buffer),
    {
        match frame {
            Some(buffer) => Some((VirtioRxToken { buffer }, VirtioTxToken { len: 0 })),
            None => None,
        }
    }

    /// Sending is always allowed; the device copes with a full ring itself.
    pub fn transmit(&mut self, len: usize) -> (r: Option<VirtioTxToken>)
        ensures
            final(self).patching == old(self).patching,
            r == Some(VirtioTxToken { len }),
    {
        Some(VirtioTxToken { len })
    }
}

impl VirtioRxToken {
    /// The frame the stack gets: the received one after tracking and ACK patching.
    pub fn consume(self, patching: &mut TcpPatching) -> (frame: Vec<u8>)
        requires
            old(patching).wf(),
            self.buffer@.len() <= MAX_FRAME_LEN,
            rx_frame_readable(self.buffer@),
        ensures
            final(patching).wf(),
            match rx_segment(self.buffer@) {
                Some(g) => {
                    let t = rx_track(old(patching).servers@, old(patching).client, g);
                    &&& final(patching).servers@ == t.0
                    &&& final(patching).client == t.1
                    &&& frame@ == match rx_ack_patch(t.0, t.1, g) {
                        Some(v) => with_tcp_checksum(
                            set_be32(self.buffer@, g.tcp_offset + 8, v),
                            g.tcp_offset as int,
                        ),
                        None => self.buffer@,
                    }
                },
                None => {
                    &&& final(patching).servers@ == old(patching).servers@
                    &&& final(patching).client == old(patching).client
                    &&& frame@ == self.buffer@
                },
            },
    {
        let mut buffer = self.buffer;
        patch_incoming_frame(&mut buffer, patching);
        buffer
    }
}

impl VirtioTxToken {
    /// The frame to send: the one the stack built, after tracking and patching.
    pub fn consume(self, built: Vec<u8>, patching: &mut TcpPatching) -> (frame: Vec<u8>)
        requires
            old(patching).wf(),
            built@.len() <= MAX_FRAME_LEN,
        ensures
            final(patching).wf(),
            match tx_segment(built@) {
                Some(g) => {
                    let t = tx_outcome(old(patching).servers@, old(patching).client, g);
                    &&& final(patching).servers@ == t.0
                    &&& final(patching).client == t.1
                    &&& frame@ == tx_frame(built@, g.tcp_offset as int, t.2, t.3)
                },
                None => {
                    &&& final(patching).servers@ == old(patching).servers@
                    &&& final(patching).client == old(patching).client
                    &&& frame@ == built@
                },
            },
    {
        let mut buffer = built;
        patch_outgoing_frame(&mut buffer, patching);
        buffer
    }
}

} // verus!
