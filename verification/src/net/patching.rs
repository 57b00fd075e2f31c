//! TCP sequence/acknowledgement patching state.
//!
//! The packet path rewrites acknowledgement (and, for a server's first ACK,
//! sequence) numbers that the TCP stack gets wrong. Server connections are
//! tracked per listening port in a small table; the one outgoing client
//! connection has a record of its own.
use vstd::prelude::*;

verus! {

/// Number of server ports whose patching state can be tracked at once.
pub const MAX_SERVER_PATCHING_PORTS: usize = 4;

/// Largest frame the patching code handles: an Ethernet header and the
/// largest IPv4 datagram.
pub const MAX_FRAME_LEN: usize = 65549;

/// Per-port TCP patching state for the server role.
#[derive(Clone, Copy)]
pub struct ServerPatchingState {
    pub port: u16,
    pub active: bool,
    pub last_syn_seq: Option<u32>,
    pub synack_seq: Option<u32>,
    pub expected_ack: Option<u32>,
    pub our_seq: Option<u32>,
    pub peer_ack_expected: Option<u32>,
    /// Correct sequence number minus the stack's own, once known.
    pub seq_offset: Option<u32>,
    /// The acknowledgement number the stack produced before it was patched.
    pub smoltcp_ack: Option<u32>,
}

/// An unused slot: port 0, inactive, nothing recorded.
pub open spec fn idle_server_state() -> ServerPatchingState {
    ServerPatchingState {
        port: 0,
        active: false,
        last_syn_seq: None,
        synack_seq: None,
        expected_ack: None,
        our_seq: None,
        peer_ack_expected: None,
        seq_offset: None,
        smoltcp_ack: None,
    }
}

impl ServerPatchingState {
    pub fn new() -> (s: Self)
        ensures
            s == idle_server_state(),
    {
        ServerPatchingState {
            port: 0,
            active: false,
            last_syn_seq: None,
            synack_seq: None,
            expected_ack: None,
            our_seq: None,
            peer_ack_expected: None,
            seq_offset: None,
            smoltcp_ack: None,
        }
    }

    /// Forget the port and everything recorded for it.
    pub fn reset(&mut self)
        ensures
            *final(self) == idle_server_state(),
    {
        self.port = 0;
        self.active = false;
        self.last_syn_seq = None;
        self.synack_seq = None;
        self.expected_ack = None;
        self.our_seq = None;
        self.peer_ack_expected = None;
        self.seq_offset = None;
        self.smoltcp_ack = None;
    }
}

/// Patching state for the client role (one outgoing connection).
#[derive(Clone, Copy)]
pub struct ClientPatchingState {
    /// The server's sequence number from its SYN-ACK.
    pub server_seq: Option<u32>,
    /// The remote port we connected to.
    pub remote_port: Option<u16>,
    /// The acknowledgement number we should be sending.
    pub expected_ack: Option<u32>,
    /// Our initial sequence number.
    pub our_seq: Option<u32>,
    /// The acknowledgement number we expect to receive.
    pub peer_ack_expected: Option<u32>,
}

/// Nothing recorded for the client role.
pub open spec fn idle_client_state() -> ClientPatchingState {
    ClientPatchingState {
        server_seq: None,
        remote_port: None,
        expected_ack: None,
        our_seq: None,
        peer_ack_expected: None,
    }
}

/// All patching state: the per-port server table and the client record.
pub struct TcpPatching {
    pub servers: Vec<ServerPatchingState>,
    pub client: ClientPatchingState,
}

impl TcpPatching {
    /// The server table has its fixed number of slots.
    pub open spec fn wf(&self) -> bool {
        self.servers@.len() == MAX_SERVER_PATCHING_PORTS
    }

    /// Every slot idle, nothing recorded for the client.
    pub fn new() -> (p: Self)
        ensures
            p.wf(),
            forall|i: int| 0 <= i < p.servers@.len() ==> p.servers@[i] == idle_server_state(),
            p.client == idle_client_state(),
    {
        let mut servers: Vec<ServerPatchingState> = Vec::new();
        let mut i: usize = 0;
        while i < MAX_SERVER_PATCHING_PORTS
            invariant
                i <= MAX_SERVER_PATCHING_PORTS,
                servers@.len() == i,
                forall|k: int| 0 <= k < i ==> servers@[k] == idle_server_state(),
            decreases MAX_SERVER_PATCHING_PORTS - i,
        {
            servers.push(ServerPatchingState::new());
            i = i + 1;
        }
        TcpPatching {
            servers,
            client: ClientPatchingState {
                server_seq: None,
                remote_port: None,
                expected_ack: None,
                our_seq: None,
                peer_ack_expected: None,
            },
        }
    }
}

/// The slot tracks `port`.
pub open spec fn tracks_port(s: ServerPatchingState, port: u16) -> bool {
    s.active && s.port == port
}

/// First slot at or after `i` that tracks `port`.
pub open spec fn find_active_from(s: Seq<ServerPatchingState>, port: u16, i: int) -> Option<int>
    decreases s.len() - i,
{
    if i < 0 || i >= s.len() {
        None
    } else if tracks_port(s[i], port) {
        Some(i)
    } else {
        find_active_from(s, port, i + 1)
    }
}

/// First slot that tracks `port`.
pub open spec fn find_active(s: Seq<ServerPatchingState>, port: u16) -> Option<int> {
    find_active_from(s, port, 0)
}

/// First inactive slot at or after `i`.
pub open spec fn find_free_from(s: Seq<ServerPatchingState>, i: int) -> Option<int>
    decreases s.len() - i,
{
    if i < 0 || i >= s.len() {
        None
    } else if !s[i].active {
        Some(i)
    } else {
        find_free_from(s, i + 1)
    }
}

/// The table after asking for `port`'s slot: an existing slot is used as it is,
/// else the first free slot is claimed for the port, else nothing changes.
pub open spec fn claim_slot(s: Seq<ServerPatchingState>, port: u16) -> Seq<ServerPatchingState> {
    match find_active(s, port) {
        Some(_) => s,
        None => match find_free_from(s, 0) {
            Some(j) => s.update(j, ServerPatchingState { port: port, active: true, ..s[j] }),
            None => s,
        },
    }
}

/// The slot that asking for `port` hands out.
pub open spec fn claimed_index(s: Seq<ServerPatchingState>, port: u16) -> Option<int> {
    match find_active(s, port) {
        Some(i) => Some(i),
        None => find_free_from(s, 0),
    }
}

proof fn lemma_find_active_skip(s: Seq<ServerPatchingState>, port: u16, i: int)
    requires
        0 <= i,
        forall|k: int| 0 <= k < i && k < s.len() ==> !tracks_port(s[k], port),
    ensures
        find_active(s, port) == find_active_from(s, port, i),
    decreases i,
{
    if i > 0 {
        lemma_find_active_skip(s, port, i - 1);
    }
}

proof fn lemma_find_free_skip(s: Seq<ServerPatchingState>, i: int)
    requires
        0 <= i,
        forall|k: int| 0 <= k < i && k < s.len() ==> s[k].active,
    ensures
        find_free_from(s, 0) == find_free_from(s, i),
    decreases i,
{
    if i > 0 {
        lemma_find_free_skip(s, i - 1);
    }
}

pub proof fn lemma_find_active_result(s: Seq<ServerPatchingState>, port: u16, i: int)
    requires
        0 <= i,
    ensures
        match find_active_from(s, port, i) {
            Some(j) => i <= j < s.len() && tracks_port(s[j], port),
            None => forall|k: int| i <= k < s.len() ==> !tracks_port(s[k], port),
        },
    decreases s.len() - i,
{
    if i < s.len() {
        lemma_find_active_result(s, port, i + 1);
    }
}

proof fn lemma_find_free_result(s: Seq<ServerPatchingState>, i: int)
    requires
        0 <= i,
    ensures
        match find_free_from(s, i) {
            Some(j) => i <= j < s.len() && !s[j].active,
            None => forall|k: int| i <= k < s.len() ==> s[k].active,
        },
    decreases s.len() - i,
{
    if i < s.len() {
        lemma_find_free_result(s, i + 1);
    }
}

/// Index of the slot tracking `port`, if any.
pub fn find_server_patching(p: &TcpPatching, port: u16) -> (r: Option<usize>)
    ensures
        r matches Some(i) ==> find_active(p.servers@, port) == Some(i as int),
        r matches Some(i) ==> i < p.servers@.len() && tracks_port(p.servers@[i as int], port),
        r is None ==> find_active(p.servers@, port) is None,
{
    let mut i: usize = 0;
    while i < p.servers.len()
        invariant
            i <= p.servers@.len(),
            forall|k: int| 0 <= k < i ==> !tracks_port(p.servers@[k], port),
        decreases p.servers@.len() - i,
    {
        if p.servers[i].active && p.servers[i].port == port {
            proof {
                lemma_find_active_skip(p.servers@, port, i as int);
            }
            return Some(i);
        }
        i = i + 1;
    }
    proof {
        lemma_find_active_skip(p.servers@, port, i as int);
    }
    None
}

/// Index of the slot tracking `port`, for a caller that goes on to change it.
pub fn find_server_patching_mut(p: &TcpPatching, port: u16) -> (r: Option<usize>)
    ensures
        r matches Some(i) ==> find_active(p.servers@, port) == Some(i as int),
        r matches Some(i) ==> i < p.servers@.len() && tracks_port(p.servers@[i as int], port),
        r is None ==> find_active(p.servers@, port) is None,
{
    find_server_patching(p, port)
}

/// The slot for `port`, claiming the first free slot when the port has none yet.
pub fn get_server_patching(p: &mut TcpPatching, port: u16) -> (r: Option<usize>)
    ensures
        final(p).servers@ == claim_slot(old(p).servers@, port),
        final(p).client == old(p).client,
        r matches Some(i) ==> claimed_index(old(p).servers@, port) == Some(i as int),
        r matches Some(i) ==> i < final(p).servers@.len() && tracks_port(final(p).servers@[i as int], port),
        final(p).servers@.len() == old(p).servers@.len(),
        r is None ==> claimed_index(old(p).servers@, port) is None,
{
    if let Some(i) = find_server_patching(p, port) {
        return Some(i);
    }
    let mut j: usize = 0;
    while j < p.servers.len()
        invariant
            j <= p.servers@.len(),
            p.servers@ == old(p).servers@,
            p.client == old(p).client,
            find_active(p.servers@, port) is None,
            forall|k: int| 0 <= k < j ==> p.servers@[k].active,
        decreases p.servers@.len() - j,
    {
        if !p.servers[j].active {
            proof {
                lemma_find_free_skip(p.servers@, j as int);
            }
            let mut slot = p.servers[j];
            slot.port = port;
            slot.active = true;
            p.servers.set(j, slot);
            return Some(j);
        }
        j = j + 1;
    }
    proof {
        lemma_find_free_skip(p.servers@, j as int);
    }
    None
}

/// No two active slots track the same port.
pub open spec fn ports_distinct(s: Seq<ServerPatchingState>) -> bool {
    forall|i: int, j: int|
        0 <= i < s.len() && 0 <= j < s.len() && i != j && #[trigger] s[i].active && #[trigger] s[j].active
            ==> s[i].port != s[j].port
}

/// Asking for a port's slot keeps the active ports distinct, and asking again
/// hands out the same slot and changes nothing more.
pub proof fn lemma_claim_slot_stable(s: Seq<ServerPatchingState>, port: u16)
    requires
        ports_distinct(s),
    ensures
        ports_distinct(claim_slot(s, port)),
        claim_slot(claim_slot(s, port), port) == claim_slot(s, port),
        claimed_index(s, port) is Some ==> claimed_index(claim_slot(s, port), port) == claimed_index(s, port),
{
    lemma_find_active_result(s, port, 0);
    lemma_find_free_result(s, 0);
    let s1 = claim_slot(s, port);
    if find_active(s, port) is None {
        if let Some(j) = find_free_from(s, 0) {
            assert forall|k: int| 0 <= k < j && k < s1.len() implies !tracks_port(s1[k], port) by {
                assert(s1[k] == s[k]);
            }
            lemma_find_active_skip(s1, port, j);
            assert(find_active(s1, port) == Some(j));
            assert forall|a: int, b: int|
                0 <= a < s1.len() && 0 <= b < s1.len() && a != b && #[trigger] s1[a].active && #[trigger] s1[b].active
                    implies s1[a].port != s1[b].port by {
                if a != j && b != j {
                    assert(s1[a] == s[a] && s1[b] == s[b]);
                } else if a == j {
                    assert(s1[b] == s[b]);
                    assert(!tracks_port(s[b], port));
                } else {
                    assert(s1[a] == s[a]);
                    assert(!tracks_port(s[a], port));
                }
            }
        }
    }
}

/// Forget the slot tracking `port`, if there is one.
pub fn reset_server_patching_for_port(p: &mut TcpPatching, port: u16)
    ensures
        final(p).client == old(p).client,
        final(p).servers@ == match find_active(old(p).servers@, port) {
            Some(i) => old(p).servers@.update(i, idle_server_state()),
            None => old(p).servers@,
        },
{
    match find_server_patching(p, port) {
        Some(i) => {
            proof {
                lemma_find_active_result(p.servers@, port, 0);
            }
            let mut slot = p.servers[i];
            slot.reset();
            p.servers.set(i, slot);
        },
        None => {},
    }
}

/// Forget everything recorded for the client role.
pub fn reset_client_patching_state(p: &mut TcpPatching)
    ensures
        final(p).servers@ == old(p).servers@,
        final(p).client == idle_client_state(),
{
    p.client = ClientPatchingState {
        server_seq: None,
        remote_port: None,
        expected_ack: None,
        our_seq: None,
        peer_ack_expected: None,
    };
}

/// Forget every server slot.
pub fn reset_server_patching_state(p: &mut TcpPatching)
    ensures
        final(p).client == old(p).client,
        final(p).servers@.len() == old(p).servers@.len(),
        forall|i: int| 0 <= i < final(p).servers@.len() ==> final(p).servers@[i] == idle_server_state(),
{
    let mut i: usize = 0;
    while i < p.servers.len()
        invariant
            i <= p.servers@.len(),
            p.servers@.len() == old(p).servers@.len(),
            p.client == old(p).client,
            forall|k: int| 0 <= k < i ==> p.servers@[k] == idle_server_state(),
        decreases p.servers@.len() - i,
    {
        p.servers.set(i, ServerPatchingState::new());
        i = i + 1;
    }
}

// ─── TCP checksum ─────────────────────────────────────────────────────────────

/// Big-endian 16-bit value at `i`.
pub open spec fn be16(b: Seq<u8>, i: int) -> nat {
    (b[i] as nat) * 256 + (b[i + 1] as nat)
}

/// Big-endian 32-bit value at `i`.
pub open spec fn be32(b: Seq<u8>, i: int) -> nat {
    be16(b, i) * 65536 + be16(b, i + 2)
}

/// The `k`-th big-endian 16-bit word, a lone last byte padded with zero.
pub open spec fn word_at(s: Seq<u8>, k: int) -> nat {
    (s[2 * k] as nat) * 256 + if 2 * k + 1 < s.len() {
        s[2 * k + 1] as nat
    } else {
        0
    }
}

/// Sum of the first `k` words.
pub open spec fn word_sum(s: Seq<u8>, k: nat) -> nat
    decreases k,
{
    if k == 0 {
        0
    } else {
        word_sum(s, (k - 1) as nat) + word_at(s, k - 1)
    }
}

/// Sum of all words of `s`.
pub open spec fn segment_sum(s: Seq<u8>) -> nat {
    word_sum(s, ((s.len() + 1) / 2) as nat)
}

/// Ones'-complement folding: add the carries back until 16 bits remain.
pub open spec fn fold16(x: nat) -> nat
    decreases x,
{
    if x < 0x10000 {
        x
    } else {
        proof {
            assert(x % 0x10000 + x / 0x10000 < x) by (nonlinear_arith)
                requires
                    x >= 0x10000,
            ;
        }
        fold16(x % 0x10000 + x / 0x10000)
    }
}

/// Pseudo-header part of the sum: source and destination IPv4 addresses (at
/// bytes 26 and 30 of the frame), protocol 6 and the TCP length.
pub open spec fn pseudo_header_sum(b: Seq<u8>, tcp_len: nat) -> nat {
    be16(b, 26) + be16(b, 28) + be16(b, 30) + be16(b, 32) + 6 + tcp_len
}

/// The frame with the checksum field of the segment at `o` set to zero.
pub open spec fn checksum_zeroed(b: Seq<u8>, o: int) -> Seq<u8> {
    b.update(o + 16, 0u8).update(o + 17, 0u8)
}

/// The TCP checksum of the segment at `o`, computed over the frame with the
/// checksum field zeroed.
pub open spec fn tcp_checksum(b: Seq<u8>, o: int) -> nat {
    let z = checksum_zeroed(b, o);
    (0xFFFF - fold16(pseudo_header_sum(z, (b.len() - o) as nat) + segment_sum(z.skip(o)))) as nat
}

/// The frame with the checksum of the segment at `o` recomputed.
pub open spec fn with_tcp_checksum(b: Seq<u8>, o: int) -> Seq<u8> {
    let c = tcp_checksum(b, o);
    checksum_zeroed(b, o).update(o + 16, (c / 256) as u8).update(o + 17, (c % 256) as u8)
}

/// Recomputing a checksum that was just recomputed changes nothing.
pub proof fn lemma_recalculate_idempotent(b: Seq<u8>, o: int)
    requires
        0 <= o,
        o + 18 <= b.len(),
    ensures
        with_tcp_checksum(with_tcp_checksum(b, o), o) == with_tcp_checksum(b, o),
{
    let b1 = with_tcp_checksum(b, o);
    assert(checksum_zeroed(b1, o) =~= checksum_zeroed(b, o));
    assert(with_tcp_checksum(b1, o) =~= b1);
}

pub proof fn lemma_word_sum_bound(s: Seq<u8>, k: nat)
    requires
        2 * k <= s.len() + 1,
    ensures
        word_sum(s, k) <= 65535 * k,
    decreases k,
{
    if k > 0 {
        lemma_word_sum_bound(s, (k - 1) as nat);
    }
}

pub proof fn lemma_fold16_bound(x: nat)
    ensures
        fold16(x) < 0x10000,
    decreases x,
{
    if x >= 0x10000 {
        assert(x % 0x10000 + x / 0x10000 < x) by (nonlinear_arith)
            requires
                x >= 0x10000,
        ;
        lemma_fold16_bound(x % 0x10000 + x / 0x10000);
    }
}

/// Recompute the TCP checksum of the segment that starts at `tcp_offset`.
pub fn recalculate_tcp_checksum(buffer: &mut Vec<u8>, tcp_offset: usize)
    requires
        34 <= old(buffer)@.len() <= MAX_FRAME_LEN,
        tcp_offset + 18 <= old(buffer)@.len(),
    ensures
        final(buffer)@ == with_tcp_checksum(old(buffer)@, tcp_offset as int),
{
    let ghost b0 = buffer@;
    buffer.set(tcp_offset + 16, 0);
    buffer.set(tcp_offset + 17, 0);
    let ghost z = buffer@;
    assert(z == checksum_zeroed(b0, tcp_offset as int));
    let n: usize = buffer.len() - tcp_offset;
    let mut sum: u32 = 0;
    sum = sum + (buffer[26] as u32) * 256 + buffer[27] as u32;
    sum = sum + (buffer[28] as u32) * 256 + buffer[29] as u32;
    sum = sum + (buffer[30] as u32) * 256 + buffer[31] as u32;
    sum = sum + (buffer[32] as u32) * 256 + buffer[33] as u32;
    sum = sum + 6;
    sum = sum + n as u32;
    let ghost pseudo = sum as nat;
    assert(pseudo == pseudo_header_sum(z, n as nat));
    let ghost seg = z.skip(tcp_offset as int);
    let mut i: usize = 0;
    while i + 1 < n
        invariant
            buffer@ == z,
            seg == z.skip(tcp_offset as int),
            n == z.len() - tcp_offset,
            n <= MAX_FRAME_LEN,
            buffer@.len() <= MAX_FRAME_LEN,
            tcp_offset + n == buffer@.len(),
            i % 2 == 0,
            i <= n,
            pseudo <= 4 * 65535 + 6 + MAX_FRAME_LEN,
            sum == pseudo + word_sum(seg, (i / 2) as nat),
        decreases n - i,
    {
        proof {
            lemma_word_sum_bound(seg, (i / 2) as nat);
        }
        assert(word_at(seg, (i / 2) as int) == (buffer@[tcp_offset + i] as nat) * 256 + (buffer@[tcp_offset + i + 1] as nat));
        sum = sum + (buffer[tcp_offset + i] as u32) * 256 + buffer[tcp_offset + i + 1] as u32;
        i = i + 2;
        assert(word_sum(seg, (i / 2) as nat) == word_sum(seg, ((i - 2) / 2) as nat) + word_at(seg, ((i - 2) / 2) as int));
    }
    proof {
        lemma_word_sum_bound(seg, (i / 2) as nat);
    }
    if i < n {
        assert(word_at(seg, (i / 2) as int) == (buffer@[tcp_offset + i] as nat) * 256);
        sum = sum + (buffer[tcp_offset + i] as u32) * 256;
        assert(word_sum(seg, ((i + 2) / 2) as nat) == word_sum(seg, (i / 2) as nat) + word_at(seg, (i / 2) as int));
        assert((seg.len() + 1) / 2 == (i + 2) / 2);
    } else {
        assert((seg.len() + 1) / 2 == i / 2);
    }
    assert(sum == pseudo + segment_sum(seg));
    let ghost total = sum as nat;
    while sum >= 0x10000
        invariant
            fold16(sum as nat) == fold16(total),
        decreases sum,
    {
        assert(sum % 0x10000 + sum / 0x10000 < sum) by (nonlinear_arith)
            requires
                sum >= 0x10000,
        ;
        sum = sum % 0x10000 + sum / 0x10000;
    }
    let checksum: u32 = 0xFFFF - sum;
    assert(checksum == tcp_checksum(b0, tcp_offset as int));
    buffer.set(tcp_offset + 16, (checksum / 256) as u8);
    buffer.set(tcp_offset + 17, (checksum % 256) as u8);
}

// ─── The checksum law ─────────────────────────────────────────────────────────

pub proof fn lemma_fold16_congruent(x: nat)
    ensures
        fold16(x) % 0xFFFF == x % 0xFFFF,
        x > 0 ==> fold16(x) > 0,
    decreases x,
{
    if x >= 0x10000 {
        let y = x % 0x10000 + x / 0x10000;
        assert(y < x && y % 0xFFFF == x % 0xFFFF && y > 0) by (nonlinear_arith)
            requires
                x >= 0x10000,
                y == x % 0x10000 + x / 0x10000,
        {
            let q = x / 0x10000;
            let r = x % 0x10000;
            assert(x == 0x10000 * q + r);
            assert(x == 0xFFFF * q + (q + r));
            assert(q >= 1);
        }
        lemma_fold16_congruent(y);
    }
}

pub proof fn lemma_word_sum_one_word(s: Seq<u8>, t: Seq<u8>, k: int, c: nat, m: nat)
    requires
        s.len() == t.len(),
        0 <= k,
        2 * k + 1 < s.len(),
        2 * m <= s.len() + 1,
        c < 0x10000,
        s[2 * k] == 0,
        s[2 * k + 1] == 0,
        t[2 * k] == (c / 256) as u8,
        t[2 * k + 1] == (c % 256) as u8,
        forall|j: int| 0 <= j < s.len() && j != 2 * k && j != 2 * k + 1 ==> t[j] == s[j],
    ensures
        word_sum(t, m) == word_sum(s, m) + (if m > k { c } else { 0 }),
    decreases m,
{
    if m > 0 {
        lemma_word_sum_one_word(s, t, k, c, (m - 1) as nat);
        let w = m - 1;
        if w == k {
            assert(word_at(t, w) == c);
            assert(word_at(s, w) == 0);
        } else {
            assert(t[2 * w] == s[2 * w]);
            if 2 * w + 1 < s.len() {
                assert(t[2 * w + 1] == s[2 * w + 1]);
            }
            assert(word_at(t, w) == word_at(s, w));
        }
    }
}

/// Checksum law: after the checksum of a segment is recomputed, the
/// ones'-complement sum of the pseudo-header and the whole segment, checksum
/// field included, is 0xFFFF, which is what a receiver checks.
pub proof fn lemma_recalculated_checksum_validates(b: Seq<u8>, o: int)
    requires
        34 <= o,
        o + 18 <= b.len(),
    ensures
        ({
            let r = with_tcp_checksum(b, o);
            fold16(pseudo_header_sum(r, (r.len() - o) as nat) + segment_sum(r.skip(o))) == 0xFFFF
        }),
{
    let z = checksum_zeroed(b, o);
    let r = with_tcp_checksum(b, o);
    let sum0 = pseudo_header_sum(z, (b.len() - o) as nat) + segment_sum(z.skip(o));
    lemma_fold16_bound(sum0);
    lemma_fold16_congruent(sum0);
    let c = tcp_checksum(b, o);
    assert(c == 0xFFFF - fold16(sum0));
    let seg = z.skip(o);
    let seg_r = r.skip(o);
    assert(pseudo_header_sum(r, (r.len() - o) as nat) == pseudo_header_sum(z, (b.len() - o) as nat));
    assert(c / 256 * 256 + c % 256 == c);
    lemma_word_sum_one_word(seg, seg_r, 8, c, ((seg.len() + 1) / 2) as nat);
    let total = sum0 + c;
    assert(segment_sum(seg_r) == segment_sum(seg) + c);
    assert(total % 0xFFFF == 0 && total > 0) by (nonlinear_arith)
        requires
            total == sum0 + c,
            c == 0xFFFF - fold16(sum0),
            fold16(sum0) % 0xFFFF == sum0 % 0xFFFF,
            fold16(sum0) < 0x10000,
            sum0 >= 6,
    ;
    lemma_fold16_congruent(total);
    lemma_fold16_bound(total);
    assert(fold16(total) == 0xFFFF) by (nonlinear_arith)
        requires
            fold16(total) % 0xFFFF == total % 0xFFFF,
            total % 0xFFFF == 0,
            fold16(total) > 0,
            fold16(total) < 0x10000,
    ;
}

// ─── The Internet checksum of a byte string ──────────────────────────────────

/// The Internet checksum of `s`: the ones' complement of the folded sum of
/// its big-endian 16-bit words.
pub open spec fn internet_checksum(s: Seq<u8>) -> nat {
    (0xFFFF - fold16(segment_sum(s))) as nat
}

/// `s` with the 16-bit value `c` stored big-endian at byte `i`.
pub open spec fn with_word(s: Seq<u8>, i: int, c: nat) -> Seq<u8> {
    s.update(i, (c / 256) as u8).update(i + 1, (c % 256) as u8)
}

/// The Internet checksum of `data[start..end]`.
pub fn checksum_range(data: &[u8], start: usize, end: usize) -> (c: u16)
    requires
        start <= end <= data@.len(),
        end - start <= MAX_FRAME_LEN,
    ensures
        c as nat == internet_checksum(data@.subrange(start as int, end as int)),
{
    let ghost seg = data@.subrange(start as int, end as int);
    let n: usize = end - start;
    let mut sum: u32 = 0;
    let mut i: usize = 0;
    while i + 1 < n
        invariant
            seg == data@.subrange(start as int, end as int),
            start <= end <= data@.len(),
            n == end - start,
            n <= MAX_FRAME_LEN,
            i % 2 == 0,
            i <= n,
            sum == word_sum(seg, (i / 2) as nat),
        decreases n - i,
    {
        proof {
            lemma_word_sum_bound(seg, (i / 2) as nat);
        }
        assert(word_at(seg, (i / 2) as int) == (data@[start + i] as nat) * 256 + (data@[start + i + 1] as nat));
        sum = sum + (data[start + i] as u32) * 256 + data[start + i + 1] as u32;
        i = i + 2;
        assert(word_sum(seg, (i / 2) as nat) == word_sum(seg, ((i - 2) / 2) as nat) + word_at(
            seg,
            ((i - 2) / 2) as int,
        ));
    }
    proof {
        lemma_word_sum_bound(seg, (i / 2) as nat);
    }
    if i < n {
        assert(word_at(seg, (i / 2) as int) == (data@[start + i] as nat) * 256);
        sum = sum + (data[start + i] as u32) * 256;
        assert(word_sum(seg, ((i + 2) / 2) as nat) == word_sum(seg, (i / 2) as nat) + word_at(
            seg,
            (i / 2) as int,
        ));
        assert((seg.len() + 1) / 2 == (i + 2) / 2);
    } else {
        assert((seg.len() + 1) / 2 == i / 2);
    }
    assert(sum == segment_sum(seg));
    let ghost total = sum as nat;
    while sum >= 0x10000
        invariant
            fold16(sum as nat) == fold16(total),
        decreases sum,
    {
        assert(sum % 0x10000 + sum / 0x10000 < sum) by (nonlinear_arith)
            requires
                sum >= 0x10000,
        ;
        sum = sum % 0x10000 + sum / 0x10000;
    }
    (0xFFFF - sum) as u16
}

/// Checksum law: a byte string whose 16-bit checksum field (at the even
/// offset `2 * k`) held zero while its Internet checksum was computed, and
/// then received that checksum, sums to 0xFFFF, which is what a receiver
/// checks.
pub proof fn lemma_inserted_checksum_validates(s: Seq<u8>, k: int)
    requires
        0 <= k,
        2 * k + 1 < s.len(),
        s[2 * k] == 0,
        s[2 * k + 1] == 0,
    ensures
        fold16(segment_sum(with_word(s, 2 * k, internet_checksum(s)))) == 0xFFFF,
{
    let sum0 = segment_sum(s);
    lemma_fold16_bound(sum0);
    lemma_fold16_congruent(sum0);
    let c = internet_checksum(s);
    let t = with_word(s, 2 * k, c);
    assert(c / 256 * 256 + c % 256 == c);
    lemma_word_sum_one_word(s, t, k, c, ((s.len() + 1) / 2) as nat);
    let total = sum0 + c;
    assert(segment_sum(t) == total);
    assert(total % 0xFFFF == 0 && total > 0) by (nonlinear_arith)
        requires
            total == sum0 + c,
            c == 0xFFFF - fold16(sum0),
            fold16(sum0) % 0xFFFF == sum0 % 0xFFFF,
            fold16(sum0) < 0x10000,
            sum0 >= 0,
    ;
    lemma_fold16_congruent(total);
    lemma_fold16_bound(total);
    assert(fold16(total) == 0xFFFF) by (nonlinear_arith)
        requires
            fold16(total) % 0xFFFF == total % 0xFFFF,
            total % 0xFFFF == 0,
            fold16(total) > 0,
            fold16(total) < 0x10000,
    ;
}

} // verus!
