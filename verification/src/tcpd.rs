//! The TCP test daemon on port 30: it answers each connection with "works\n"
//! and closes it.
use vstd::prelude::*;
use vstd::string::StringSliceAdditionalSpecFns;
use crate::text::str_is;

verus! {

pub const TCPD_PORT: u16 = 30;
pub const MAX_CONNECTIONS: usize = 4;
/// The greeting.
pub const HELLO: [u8; 6] = [0x77, 0x6f, 0x72, 0x6b, 0x73, 0x0a];

/// A connection slot.
#[derive(Clone, Copy)]
pub struct TcpdConnection {
    pub socket_id: Option<u8>,
    pub sent_hello: bool,
    pub close_pending: bool,
}

pub open spec fn empty_slot() -> TcpdConnection {
    TcpdConnection { socket_id: None, sent_hello: false, close_pending: false }
}

impl TcpdConnection {
    pub fn new() -> (c: Self)
        ensures
            c == empty_slot(),
    {
        TcpdConnection { socket_id: None, sent_hello: false, close_pending: false }
    }

    pub fn reset(&mut self)
        ensures
            *final(self) == empty_slot(),
    {
        self.socket_id = None;
        self.sent_hello = false;
        self.close_pending = false;
    }
}

/// The daemon's state.
pub struct TcpdState {
    pub connections: Vec<TcpdConnection>,
    pub listen_socket: Option<u8>,
    pub initialized: bool,
    pub using_d1: bool,
    pub last_run: i64,
}

impl TcpdState {
    pub open spec fn wf(&self) -> bool {
        self.connections@.len() == MAX_CONNECTIONS
    }

    pub fn new() -> (s: Self)
        ensures
            s.wf(),
            forall|i: int| 0 <= i < MAX_CONNECTIONS ==> s.connections@[i] == empty_slot(),
            s.listen_socket is None,
            !s.initialized,
            !s.using_d1,
            s.last_run == 0,
    {
        let mut connections: Vec<TcpdConnection> = Vec::new();
        let mut i: usize = 0;
        while i < MAX_CONNECTIONS
            invariant
                i <= MAX_CONNECTIONS,
                connections@.len() == i,
                forall|k: int| 0 <= k < i ==> connections@[k] == empty_slot(),
            decreases MAX_CONNECTIONS - i,
        {
            connections.push(TcpdConnection::new());
            i = i + 1;
        }
        TcpdState { connections, listen_socket: None, initialized: false, using_d1: false, last_run: 0 }
    }
}

/// Start listening, on the VirtIO stack if it is up, else on the D1 one:
/// `virtio` and `d1` are the outcome of listening on each stack that is up.
pub fn init(st: &mut TcpdState, virtio: Option<Result<u8, &'static str>>, d1: Option<Result<u8, &'static str>>) -> (r: Result<(), &'static str>)
    ensures
        final(st).connections == old(st).connections,
        virtio matches Some(Ok(s)) ==> r is Ok && final(st).listen_socket == Some(s) && final(st).initialized
            && final(st).using_d1 == old(st).using_d1,
        virtio matches Some(Err(e)) ==> r == Err::<(), &'static str>(e) && final(st).listen_socket == old(st).listen_socket
            && final(st).initialized == old(st).initialized,
        virtio is None ==> (d1 matches Some(Ok(s)) ==> r is Ok && final(st).listen_socket == Some(s)
            && final(st).initialized && final(st).using_d1),
        virtio is None ==> (d1 matches Some(Err(e)) ==> r == Err::<(), &'static str>(e)
            && final(st).listen_socket == old(st).listen_socket && final(st).initialized == old(
            st,
        ).initialized),
        virtio is None && d1 is None ==> r is Err && final(st).initialized == old(st).initialized,
{
    match virtio {
        Some(res) => {
            let socket = match res {
                Ok(s) => s,
                Err(e) => {
                    return Err(e);
                },
            };
            st.listen_socket = Some(socket);
            st.initialized = true;
            return Ok(());
        },
        None => {},
    }
    match d1 {
        Some(res) => {
            let socket = match res {
                Ok(s) => s,
                Err(e) => {
                    return Err(e);
                },
            };
            st.listen_socket = Some(socket);
            st.using_d1 = true;
            st.initialized = true;
            Ok(())
        },
        None => Err("Network not available"),
    }
}

pub fn is_running(st: &TcpdState) -> (r: bool)
    ensures
        r == st.initialized,
{
    st.initialized
}

/// Whether the daemon works at `now`: once started, at most every 10 ms.
pub fn tick(st: &mut TcpdState, now: i64) -> (run: bool)
    requires
        i64::MIN <= now - old(st).last_run <= i64::MAX,
    ensures
        run == (old(st).initialized && now - old(st).last_run >= 10),
        run ==> final(st).last_run == now,
        !run ==> final(st).last_run == old(st).last_run,
        final(st).connections == old(st).connections,
        final(st).listen_socket == old(st).listen_socket,
{
    if !st.initialized {
        return false;
    }
    if now - st.last_run < 10 {
        return false;
    }
    st.last_run = now;
    true
}

/// The first slot at or after `i` without a socket.
pub open spec fn free_slot_from(c: Seq<TcpdConnection>, i: int) -> Option<int>
    decreases c.len() - i,
{
    if i < 0 || i >= c.len() {
        None
    } else if c[i].socket_id is None {
        Some(i)
    } else {
        free_slot_from(c, i + 1)
    }
}

/// A connection came in on `sock` (the listening socket itself, once it is
/// established, or an accepted one): the first free slot takes it and the
/// daemon stops listening. With no free slot nothing changes.
pub fn adopt_connection(st: &mut TcpdState, sock: u8) -> (adopted: bool)
    requires
        old(st).wf(),
    ensures
        final(st).wf(),
        match free_slot_from(old(st).connections@, 0) {
            Some(i) => adopted && final(st).connections@ == old(st).connections@.update(
                i,
                TcpdConnection { socket_id: Some(sock), sent_hello: false, close_pending: false },
            ) && final(st).listen_socket is None,
            None => !adopted && final(st).connections@ == old(st).connections@ && final(st).listen_socket
                == old(st).listen_socket,
        },
        final(st).initialized == old(st).initialized,
        final(st).last_run == old(st).last_run,
{
    let mut i: usize = 0;
    while i < st.connections.len()
        invariant
            st.wf(),
            i <= MAX_CONNECTIONS,
            st.connections@ == old(st).connections@,
            st.listen_socket == old(st).listen_socket,
            st.initialized == old(st).initialized,
            st.last_run == old(st).last_run,
            free_slot_from(old(st).connections@, 0) == free_slot_from(old(st).connections@, i as int),
        decreases MAX_CONNECTIONS - i,
    {
        if st.connections[i].socket_id.is_none() {
            st.connections.set(i, TcpdConnection { socket_id: Some(sock), sent_hello: false, close_pending: false });
            st.listen_socket = None;
            return true;
        }
        i = i + 1;
    }
    false
}

/// What to do with a slot's connection.
#[derive(Clone, Copy, PartialEq, Eq, Structural)]
pub enum SlotAction {
    Nothing,
    /// The connection is gone: release the socket, free the slot, listen again.
    Release,
    /// Send the greeting.
    SendHello,
    /// The greeting went out: close.
    Close,
}

pub open spec fn is_gone(state: Seq<u8>) -> bool {
    state == seq![0x43u8, 0x6c, 0x6f, 0x73, 0x65, 0x64] || state == seq![0x54u8, 0x69, 0x6d, 0x65, 0x57,
        0x61, 0x69, 0x74]
}

pub open spec fn is_established(state: Seq<u8>) -> bool {
    state == seq![0x45u8, 0x73, 0x74, 0x61, 0x62, 0x6c, 0x69, 0x73, 0x68, 0x65, 0x64]
}

/// The step for a slot whose socket is in TCP state `state` (as the stack
/// names it): a closing or dead connection is released once Closed or
/// TimeWait; an established one gets the greeting, then is closed.
pub fn slot_action(slot: &TcpdConnection, state: &str) -> (a: SlotAction)
    ensures
        slot.close_pending ==> a == (if is_gone(state.spec_bytes()) {
            SlotAction::Release
        } else {
            SlotAction::Nothing
        }),
        !slot.close_pending && !is_established(state.spec_bytes()) ==> a == (if is_gone(
            state.spec_bytes(),
        ) {
            SlotAction::Release
        } else {
            SlotAction::Nothing
        }),
        !slot.close_pending && is_established(state.spec_bytes()) ==> a == (if !slot.sent_hello {
            SlotAction::SendHello
        } else {
            SlotAction::Close
        }),
{
    let gone = str_is(state, &[0x43u8, 0x6c, 0x6f, 0x73, 0x65, 0x64]) || str_is(state, &[0x54u8, 0x69, 0x6d, 0x65, 0x57, 0x61, 0x69, 0x74]);
    let established = str_is(state, &[0x45u8, 0x73, 0x74, 0x61, 0x62, 0x6c, 0x69, 0x73, 0x68, 0x65, 0x64]);
    if slot.close_pending || !established {
        if gone {
            SlotAction::Release
        } else {
            SlotAction::Nothing
        }
    } else if !slot.sent_hello {
        SlotAction::SendHello
    } else {
        SlotAction::Close
    }
}

/// After sending the greeting: some bytes sent marks it sent; an error means
/// the connection is closed (true: the caller closes the socket).
pub fn hello_sent(slot: &mut TcpdConnection, result: Result<usize, &'static str>) -> (close: bool)
    ensures
        result matches Ok(n) && n > 0 ==> final(slot).sent_hello && !close && final(slot).close_pending
            == old(slot).close_pending,
        result matches Ok(n) && n == 0 ==> *final(slot) == *old(slot) && !close,
        result is Err ==> close && final(slot).close_pending && final(slot).sent_hello == old(slot).sent_hello,
        final(slot).socket_id == old(slot).socket_id,
{
    match result {
        Ok(n) => {
            if n > 0 {
                slot.sent_hello = true;
            }
            false
        },
        Err(_) => {
            slot.close_pending = true;
            true
        },
    }
}

/// The daemon closed a slot's connection.
pub fn closing(slot: &mut TcpdConnection)
    ensures
        final(slot).close_pending,
        final(slot).socket_id == old(slot).socket_id,
        final(slot).sent_hello == old(slot).sent_hello,
{
    slot.close_pending = true;
}

/// Free slot `i` after its socket was released; true when the daemon has no
/// listening socket and should listen again.
pub fn release_slot(st: &mut TcpdState, i: usize) -> (relisten: bool)
    requires
        old(st).wf(),
        i < MAX_CONNECTIONS,
    ensures
        final(st).wf(),
        final(st).connections@ == old(st).connections@.update(i as int, empty_slot()),
        relisten == (old(st).listen_socket is None),
        final(st).listen_socket == old(st).listen_socket,
{
    st.connections.set(i, TcpdConnection::new());
    st.listen_socket.is_none()
}

/// The daemon's step (see `tick`).
pub fn tcpd_service(st: &mut TcpdState, now: i64) -> (run: bool)
    requires
        i64::MIN <= now - old(st).last_run <= i64::MAX,
    ensures
        run == (old(st).initialized && now - old(st).last_run >= 10),
{
    tick(st, now)
}

} // verus!
