//! The table of server TCP sockets used by listen/accept.
use vstd::prelude::*;

verus! {

/// Number of server TCP sockets.
pub const MAX_SERVER_SOCKETS: usize = 4;

/// Index of a socket in the server table.
pub type TcpSocketId = u8;

/// Where a server socket slot stands.
#[derive(Clone, Copy, PartialEq, Eq, Structural)]
pub enum ServerSocketState {
    /// The slot is free.
    Free,
    /// Listening for connections.
    Listening,
    /// Has an active connection.
    Connected,
    /// Closing.
    Closing,
}

/// A server socket slot and its per-socket patching state.
#[derive(Clone, Copy)]
pub struct ServerSocket {
    /// The stack's handle of the socket, by its index in the stack's socket set.
    pub handle: Option<usize>,
    pub port: u16,
    pub state: ServerSocketState,
    pub last_syn_seq: Option<u32>,
    pub synack_seq: Option<u32>,
    pub expected_ack: Option<u32>,
    pub our_seq: Option<u32>,
    pub peer_ack_expected: Option<u32>,
}

/// A free slot with nothing recorded.
pub open spec fn free_socket() -> ServerSocket {
    ServerSocket {
        handle: None,
        port: 0,
        state: ServerSocketState::Free,
        last_syn_seq: None,
        synack_seq: None,
        expected_ack: None,
        our_seq: None,
        peer_ack_expected: None,
    }
}

impl ServerSocket {
    pub fn new() -> (s: Self)
        ensures
            s == free_socket(),
    {
        ServerSocket {
            handle: None,
            port: 0,
            state: ServerSocketState::Free,
            last_syn_seq: None,
            synack_seq: None,
            expected_ack: None,
            our_seq: None,
            peer_ack_expected: None,
        }
    }

    /// Forget the recorded sequence numbers; handle, port and state stay.
    pub fn reset_patching(&mut self)
        ensures
            *final(self) == (ServerSocket {
                last_syn_seq: None,
                synack_seq: None,
                expected_ack: None,
                our_seq: None,
                peer_ack_expected: None,
                ..*old(self)
            }),
    {
        self.last_syn_seq = None;
        self.synack_seq = None;
        self.expected_ack = None;
        self.our_seq = None;
        self.peer_ack_expected = None;
    }
}

/// The server sockets.
pub struct TcpServerManager {
    pub sockets: Vec<ServerSocket>,
}

/// First slot at or after `i` that is free.
pub open spec fn first_free_from(s: Seq<ServerSocket>, i: int) -> Option<int>
    decreases s.len() - i,
{
    if i < 0 || i >= s.len() {
        None
    } else if s[i].state == ServerSocketState::Free {
        Some(i)
    } else {
        first_free_from(s, i + 1)
    }
}

/// First slot at or after `i` in use on `port`.
pub open spec fn first_on_port_from(s: Seq<ServerSocket>, port: u16, i: int) -> Option<int>
    decreases s.len() - i,
{
    if i < 0 || i >= s.len() {
        None
    } else if s[i].port == port && s[i].state != ServerSocketState::Free {
        Some(i)
    } else {
        first_on_port_from(s, port, i + 1)
    }
}

impl TcpServerManager {
    pub open spec fn wf(&self) -> bool {
        self.sockets@.len() == MAX_SERVER_SOCKETS
    }

    /// All slots free.
    pub fn new() -> (m: Self)
        ensures
            m.wf(),
            forall|i: int| 0 <= i < m.sockets@.len() ==> m.sockets@[i] == free_socket(),
    {
        let mut sockets: Vec<ServerSocket> = Vec::new();
        let mut i: usize = 0;
        while i < MAX_SERVER_SOCKETS
            invariant
                i <= MAX_SERVER_SOCKETS,
                sockets@.len() == i,
                forall|k: int| 0 <= k < i ==> sockets@[k] == free_socket(),
            decreases MAX_SERVER_SOCKETS - i,
        {
            sockets.push(ServerSocket::new());
            i = i + 1;
        }
        TcpServerManager { sockets }
    }

    /// The first free slot's id; the slot is not marked (the caller fills it in).
    pub fn allocate(&mut self) -> (r: Option<TcpSocketId>)
        requires
            old(self).wf(),
        ensures
            final(self).sockets@ == old(self).sockets@,
            match first_free_from(old(self).sockets@, 0) {
                Some(i) => r == Some(i as u8),
                None => r is None,
            },
    {
        let mut i: usize = 0;
        while i < self.sockets.len()
            invariant
                i <= self.sockets@.len(),
                self.sockets@.len() == MAX_SERVER_SOCKETS,
                self.sockets@ == old(self).sockets@,
                first_free_from(self.sockets@, 0) == first_free_from(self.sockets@, i as int),
            decreases self.sockets@.len() - i,
        {
            if self.sockets[i].state == ServerSocketState::Free {
                return Some(i as u8);
            }
            i = i + 1;
        }
        None
    }

    /// The slot with this id, if the id is in range.
    pub fn get(&self, id: TcpSocketId) -> (r: Option<&ServerSocket>)
        ensures
            (id as int) < self.sockets@.len() ==> r == Some(&self.sockets@[id as int]),
            (id as int) >= self.sockets@.len() ==> r is None,
    {
        if (id as usize) < self.sockets.len() {
            Some(&self.sockets[id as usize])
        } else {
            None
        }
    }

    /// The slot with this id, to be changed through `set`.
    pub fn get_mut(&self, id: TcpSocketId) -> (r: Option<ServerSocket>)
        ensures
            (id as int) < self.sockets@.len() ==> r == Some(self.sockets@[id as int]),
            (id as int) >= self.sockets@.len() ==> r is None,
    {
        if (id as usize) < self.sockets.len() {
            Some(self.sockets[id as usize])
        } else {
            None
        }
    }

    /// Store a changed slot back under its id (ids out of range change nothing).
    pub fn set(&mut self, id: TcpSocketId, slot: ServerSocket)
        ensures
            (id as int) < old(self).sockets@.len() ==> final(self).sockets@ == old(self).sockets@.update(
                id as int,
                slot,
            ),
            (id as int) >= old(self).sockets@.len() ==> final(self).sockets@ == old(self).sockets@,
    {
        if (id as usize) < self.sockets.len() {
            self.sockets.set(id as usize, slot);
        }
    }

    /// The first slot in use on `port`.
    pub fn find_by_port(&self, port: u16) -> (r: Option<&ServerSocket>)
        ensures
            match first_on_port_from(self.sockets@, port, 0) {
                Some(i) => r == Some(&self.sockets@[i]),
                None => r is None,
            },
    {
        match self.find_index_by_port(port) {
            Some(i) => {
                Some(&self.sockets[i])
            },
            None => None,
        }
    }

    /// Index of the first slot in use on `port`, for a caller that changes it.
    pub fn find_by_port_mut(&self, port: u16) -> (r: Option<usize>)
        ensures
            match first_on_port_from(self.sockets@, port, 0) {
                Some(i) => r == Some(i as usize),
                None => r is None,
            },
    {
        self.find_index_by_port(port)
    }

    fn find_index_by_port(&self, port: u16) -> (r: Option<usize>)
        ensures
            r matches Some(k) ==> first_on_port_from(self.sockets@, port, 0) == Some(k as int) && k
                < self.sockets@.len(),
            r is None ==> first_on_port_from(self.sockets@, port, 0) is None,
    {
        let mut i: usize = 0;
        while i < self.sockets.len()
            invariant
                i <= self.sockets@.len(),
                first_on_port_from(self.sockets@, port, 0) == first_on_port_from(self.sockets@, port, i as int),
            decreases self.sockets@.len() - i,
        {
            if self.sockets[i].port == port && self.sockets[i].state != ServerSocketState::Free {
                return Some(i);
            }
            i = i + 1;
        }
        None
    }

    /// Free the slot with this id and forget what it recorded.
    pub fn release(&mut self, id: TcpSocketId)
        ensures
            (id as int) < old(self).sockets@.len() ==> final(self).sockets@ == old(self).sockets@.update(
                id as int,
                free_socket(),
            ),
            (id as int) >= old(self).sockets@.len() ==> final(self).sockets@ == old(self).sockets@,
    {
        if (id as usize) < self.sockets.len() {
            let mut slot = self.sockets[id as usize];
            slot.handle = None;
            slot.port = 0;
            slot.state = ServerSocketState::Free;
            slot.reset_patching();
            self.sockets.set(id as usize, slot);
        }
    }
}

} // verus!
