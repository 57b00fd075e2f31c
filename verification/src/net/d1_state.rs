//! The network state kept beside the TCP/IP stack on the D1 Ethernet
//! controller: the stack's own ICMP socket carries pings, so the kernel
//! builds only the ICMP message.
use vstd::prelude::*;
use std::collections::VecDeque;
use crate::net::config::{get_my_ip, set_my_ip, NetConfig, DEFAULT_IP_ADDR, ICMP_IDENT};
use crate::net::patching::{
    checksum_range, fold16, internet_checksum, lemma_inserted_checksum_validates, segment_sum,
    with_word,
};
use crate::net::server::{ServerSocket, ServerSocketState, TcpServerManager, TcpSocketId};
use crate::net::state::{
    accept_on, accept_spec, accept_target, accept_target_spec, echo_request, random_seed,
    same_ip, spec_is_loopback, stack_seed, tcp_state_name, tcp_state_text, AcceptStep,
    LoopbackReply, TcpState,
};

verus! {

/// What the D1 network logic keeps: the MAC address, loopback ping replies
/// waiting in arrival order, the server sockets, and whether the relay
/// assigned an address.
pub struct D1NetState {
    pub mac: [u8; 6],
    pub loopback_replies: VecDeque<LoopbackReply>,
    pub server_sockets: TcpServerManager,
    pub ip_assigned: bool,
}

/// A nibble as a lower-case hexadecimal digit.
pub open spec fn hex_digit(n: u8) -> u8 {
    if n < 10 {
        (48 + n) as u8
    } else {
        (87 + n) as u8
    }
}

/// The MAC address as text: six lower-case hexadecimal pairs joined by colons.
pub open spec fn mac_text(mac: [u8; 6]) -> Seq<u8> {
    Seq::new(
        17,
        |j: int|
            if j % 3 == 2 {
                0x3Au8
            } else if j % 3 == 0 {
                hex_digit(mac[j / 3] / 16)
            } else {
                hex_digit(mac[j / 3] % 16)
            },
    )
}

/// The echo request the D1 stack's ICMP socket sends: identifier
/// ICMP_IDENT, this sequence number and the payload, checksum filled in.
pub open spec fn echo_message(seq: u16) -> Seq<u8> {
    with_word(echo_request(seq), 2, internet_checksum(echo_request(seq)))
}

/// Echo law: the echo request's checksum validates.
pub proof fn lemma_echo_message_checksum(seq: u16)
    ensures
        echo_message(seq).len() == 18,
        fold16(segment_sum(echo_message(seq))) == 0xFFFF,
{
    lemma_inserted_checksum_validates(echo_request(seq), 1);
}

fn hex_nibble(n: u8) -> (c: u8)
    requires
        n < 16,
    ensures
        c == hex_digit(n),
{
    if n < 10 {
        48 + n
    } else {
        87 + n
    }
}

impl D1NetState {
    pub open spec fn wf(&self) -> bool {
        self.server_sockets.wf()
    }

    /// Set up the network state for a device with this MAC address; the
    /// address stays unset (netd waits for the relay). Returns the state and
    /// the seed for the stack's sequence numbers.
    pub fn new(mac: [u8; 6], time_ms: u64) -> (r: (D1NetState, u64))
        ensures
            r.0.wf(),
            r.0.mac == mac,
            r.0.loopback_replies@.len() == 0,
            !r.0.ip_assigned,
            forall|i: int| 0 <= i < r.0.server_sockets.sockets@.len() ==> r.0.server_sockets.sockets@[i]
                == crate::net::server::free_socket(),
            r.1 == random_seed(mac, DEFAULT_IP_ADDR, time_ms),
    {
        let seed = stack_seed(mac, DEFAULT_IP_ADDR, time_ms);
        let st = D1NetState {
            mac,
            loopback_replies: VecDeque::new(),
            server_sockets: TcpServerManager::new(),
            ip_assigned: false,
        };
        (st, seed)
    }

    /// Take the relay's address once it appears: returns the newly assigned
    /// address (for the stack's interface), or `None` when nothing changed.
    pub fn poll(&mut self, cfg: &mut NetConfig, config_ip: Option<[u8; 4]>) -> (r: Option<[u8; 4]>)
        ensures
            r == if !old(self).ip_assigned { config_ip } else { None },
            final(self).ip_assigned == (old(self).ip_assigned || config_ip is Some),
            r matches Some(ip) ==> final(cfg).my_ip == ip,
            r is None ==> *final(cfg) == *old(cfg),
            final(self).mac == old(self).mac,
            final(self).loopback_replies@ == old(self).loopback_replies@,
            final(self).server_sockets.sockets@ == old(self).server_sockets.sockets@,
    {
        if !self.ip_assigned {
            match config_ip {
                Some(ip) => {
                    set_my_ip(cfg, ip);
                    self.ip_assigned = true;
                    Some(ip)
                },
                None => None,
            }
        } else {
            None
        }
    }

    /// Our MAC address.
    pub fn mac(&self) -> (r: [u8; 6])
        ensures
            r == self.mac,
    {
        self.mac
    }

    /// Our MAC address as text (see `mac_text`).
    pub fn mac_str(&self) -> (s: [u8; 17])
        ensures
            s@ == mac_text(self.mac),
    {
        let mut s: [u8; 17] = [0u8; 17];
        let mut i: usize = 0;
        while i < 6
            invariant
                i <= 6,
                forall|j: int| 0 <= j < 3 * i - 1 && j < 17 ==> s@[j] == mac_text(self.mac)[j],
                i > 0 && i < 6 ==> s@[3 * i - 1] == 0x3Au8,
            decreases 6 - i,
        {
            s[i * 3] = hex_nibble(self.mac[i] / 16);
            s[i * 3 + 1] = hex_nibble(self.mac[i] % 16);
            if i < 5 {
                s[i * 3 + 2] = 0x3A;
            }
            i = i + 1;
        }
        assert(s@ =~= mac_text(self.mac));
        s
    }

    /// Send a ping. Loopback and our own address queue a reply and return
    /// `Ok(None)`. Otherwise the stack's ICMP socket must be able to send
    /// (`can_send`), and the echo request to hand it is returned.
    pub fn send_ping(&mut self, cfg: &NetConfig, target: [u8; 4], seq: u16, can_send: bool)
        -> (r: Result<Option<Vec<u8>>, &'static str>)
        ensures
            spec_is_loopback(target) || target == cfg.my_ip ==> (r matches Ok(None)
                && final(self).loopback_replies@ == old(self).loopback_replies@.push(
                LoopbackReply { from: target, ident: ICMP_IDENT, seq },
            )),
            !(spec_is_loopback(target) || target == cfg.my_ip) ==> final(self).loopback_replies@
                == old(self).loopback_replies@ && match r {
                Ok(Some(p)) => can_send && p@ == echo_message(seq),
                Ok(None) => false,
                Err(e) => !can_send && e@ == "ICMP socket cannot send"@,
            },
            final(self).mac == old(self).mac,
            final(self).server_sockets.sockets@ == old(self).server_sockets.sockets@,
            final(self).ip_assigned == old(self).ip_assigned,
    {
        if target[0] == 127 || same_ip(target, get_my_ip(cfg)) {
            self.loopback_replies.push_back(LoopbackReply { from: target, ident: ICMP_IDENT, seq });
            return Ok(None);
        }
        if !can_send {
            return Err("ICMP socket cannot send");
        }
        let mut p: Vec<u8> = Vec::new();
        p.push(8);
        p.push(0);
        p.push(0);
        p.push(0);
        p.push(0x12);
        p.push(0x34);
        p.push((seq / 256) as u8);
        p.push((seq % 256) as u8);
        p.push(0x52);
        p.push(0x49);
        p.push(0x53);
        p.push(0x43);
        p.push(0x56);
        p.push(0x5F);
        p.push(0x50);
        p.push(0x49);
        p.push(0x4E);
        p.push(0x47);
        let ghost p0 = p@;
        assert(p0 =~= echo_request(seq));
        let c = Self::echo_checksum(p.as_slice());
        p.set(2, (c / 256) as u8);
        p.set(3, (c % 256) as u8);
        assert(p@ =~= echo_message(seq));
        Ok(Some(p))
    }

    /// The Internet checksum of an ICMP message (at least one byte).
    pub fn echo_checksum(data: &[u8]) -> (c: u16)
        requires
            1 <= data@.len() <= crate::net::patching::MAX_FRAME_LEN,
        ensures
            c as nat == internet_checksum(data@),
    {
        let c = checksum_range(data, 0, data.len());
        assert(data@.subrange(0, data@.len() as int) =~= data@);
        c
    }

    /// The next echo reply: a queued loopback reply first; otherwise the
    /// message the ICMP socket received (with its source), if it is an echo
    /// reply carrying our identifier.
    pub fn check_ping_reply(&mut self, received: Option<(&[u8], [u8; 4])>) -> (r: Option<([u8; 4], u16, u16)>)
        ensures
            old(self).loopback_replies@.len() > 0 ==> {
                let q = old(self).loopback_replies@[0];
                &&& r == Some((q.from, q.ident, q.seq))
                &&& final(self).loopback_replies@ == old(self).loopback_replies@.drop_first()
            },
            old(self).loopback_replies@.len() == 0 ==> final(self).loopback_replies@.len() == 0
                && r == match received {
                Some((d, src)) => {
                    let ident = (d@[4] as int * 256 + d@[5] as int) as u16;
                    let seq = (d@[6] as int * 256 + d@[7] as int) as u16;
                    if d@.len() >= 8 && d@[0] == 0 && ident == ICMP_IDENT {
                        Some((src, ident, seq))
                    } else {
                        None
                    }
                },
                None => None,
            },
            final(self).mac == old(self).mac,
            final(self).server_sockets.sockets@ == old(self).server_sockets.sockets@,
            final(self).ip_assigned == old(self).ip_assigned,
    {
        match self.loopback_replies.pop_front() {
            Some(q) => {
                return Some((q.from, q.ident, q.seq));
            },
            None => {},
        }
        match received {
            Some((d, src)) => {
                if d.len() >= 8 && d[0] == 0 {
                    let ident: u16 = (d[4] as u16) * 256 + d[5] as u16;
                    let seq: u16 = (d[6] as u16) * 256 + d[7] as u16;
                    if ident == ICMP_IDENT {
                        return Some((src, ident, seq));
                    }
                }
                None
            },
            None => None,
        }
    }

    /// Listen on `port`: the first free slot for the socket the stack
    /// creates, failing when none is free.
    pub fn tcp_listen_slot(&self) -> (r: Result<TcpSocketId, &'static str>)
        requires
            self.wf(),
        ensures
            match crate::net::server::first_free_from(self.server_sockets.sockets@, 0) {
                Some(i) => r == Ok::<TcpSocketId, &'static str>(i as u8),
                None => r matches Err(e) && e@ == "No server socket slots available"@,
            },
    {
        let mut i: usize = 0;
        while i < self.server_sockets.sockets.len()
            invariant
                i <= self.server_sockets.sockets@.len(),
                self.server_sockets.sockets@.len() == crate::net::server::MAX_SERVER_SOCKETS,
                crate::net::server::first_free_from(self.server_sockets.sockets@, 0)
                    == crate::net::server::first_free_from(self.server_sockets.sockets@, i as int),
            decreases self.server_sockets.sockets@.len() - i,
        {
            if self.server_sockets.sockets[i].state == ServerSocketState::Free {
                return Ok(i as u8);
            }
            i = i + 1;
        }
        Err("No server socket slots available")
    }

    /// Record the listening socket: when the stack's listen succeeded (with
    /// the socket added under `handle`) the slot listens on `port`; a failed
    /// listen is reported and changes nothing.
    pub fn tcp_listen(&mut self, id: TcpSocketId, port: u16, handle: Option<usize>) -> (r: Result<TcpSocketId, &'static str>)
        ensures
            match handle {
                Some(h) => r == Ok::<TcpSocketId, &'static str>(id) && final(self).server_sockets.sockets@
                    == if (id as int) < old(self).server_sockets.sockets@.len() {
                    old(self).server_sockets.sockets@.update(
                        id as int,
                        ServerSocket {
                            handle: Some(h),
                            port,
                            state: ServerSocketState::Listening,
                            ..old(self).server_sockets.sockets@[id as int]
                        },
                    )
                } else {
                    old(self).server_sockets.sockets@
                },
                None => r matches Err(e) && e@ == "Failed to listen on port"@
                    && final(self).server_sockets.sockets@ == old(self).server_sockets.sockets@,
            },
            final(self).mac == old(self).mac,
            final(self).loopback_replies@ == old(self).loopback_replies@,
            final(self).ip_assigned == old(self).ip_assigned,
    {
        match handle {
            Some(h) => {
                match self.server_sockets.get_mut(id) {
                    Some(slot) => {
                        let mut slot = slot;
                        slot.handle = Some(h);
                        slot.port = port;
                        slot.state = ServerSocketState::Listening;
                        self.server_sockets.set(id, slot);
                    },
                    None => {},
                }
                Ok(id)
            },
            None => Err("Failed to listen on port"),
        }
    }

    /// The listening socket to look at for `tcp_accept`.
    pub fn tcp_accept_target(&self, listen_id: TcpSocketId) -> (r: Option<(usize, u16)>)
        ensures
            r == accept_target_spec(self.server_sockets, listen_id),
    {
        accept_target(&self.server_sockets, listen_id)
    }

    /// Accept on a listening socket (see `accept_spec`).
    pub fn tcp_accept(&mut self, listen_id: TcpSocketId, s: TcpState, remote: Option<([u8; 4], u16)>) -> (r: AcceptStep)
        ensures
            accept_spec(old(self).server_sockets, final(self).server_sockets, listen_id, s, remote, r),
            final(self).mac == old(self).mac,
            final(self).loopback_replies@ == old(self).loopback_replies@,
            final(self).ip_assigned == old(self).ip_assigned,
    {
        accept_on(&mut self.server_sockets, listen_id, s, remote)
    }

    /// The stack handle of a server socket, if its slot exists and has one.
    pub fn server_handle(&self, id: TcpSocketId) -> (r: Option<usize>)
        ensures
            r == if (id as int) < self.server_sockets.sockets@.len() {
                self.server_sockets.sockets@[id as int].handle
            } else {
                None
            },
    {
        match self.server_sockets.get(id) {
            Some(slot) => slot.handle,
            None => None,
        }
    }

    /// The name of a server socket's state: "Invalid" without a socket.
    pub fn tcp_server_state(&self, id: TcpSocketId, s: TcpState) -> (r: &'static str)
        ensures
            self.server_handle_spec(id) is None ==> r@ == "Invalid"@,
            self.server_handle_spec(id) is Some ==> r@ == tcp_state_text(s),
    {
        match self.server_handle(id) {
            Some(_h) => tcp_state_name(s),
            None => "Invalid",
        }
    }

    pub open spec fn server_handle_spec(&self, id: TcpSocketId) -> Option<usize> {
        if (id as int) < self.server_sockets.sockets@.len() {
            self.server_sockets.sockets@[id as int].handle
        } else {
            None
        }
    }

    /// Give a server socket's slot back: returns the stack handle to remove;
    /// the slot is free again with port 0 (its patching record stays).
    pub fn tcp_release_server(&mut self, id: TcpSocketId) -> (r: Option<usize>)
        ensures
            (id as int) < old(self).server_sockets.sockets@.len() ==> {
                let slot = old(self).server_sockets.sockets@[id as int];
                &&& r == slot.handle
                &&& final(self).server_sockets.sockets@ == old(self).server_sockets.sockets@.update(
                    id as int,
                    ServerSocket { handle: None, state: ServerSocketState::Free, port: 0, ..slot },
                )
            },
            (id as int) >= old(self).server_sockets.sockets@.len() ==> r is None
                && final(self).server_sockets.sockets@ == old(self).server_sockets.sockets@,
            final(self).mac == old(self).mac,
            final(self).loopback_replies@ == old(self).loopback_replies@,
            final(self).ip_assigned == old(self).ip_assigned,
    {
        match self.server_sockets.get_mut(id) {
            Some(slot) => {
                let h = slot.handle;
                let mut slot = slot;
                slot.handle = None;
                slot.state = ServerSocketState::Free;
                slot.port = 0;
                self.server_sockets.set(id, slot);
                h
            },
            None => None,
        }
    }
}

} // verus!
