//! The D1 touch panel and the emulator's keyboard and character input.
//!
//! Register readings become input events, queued in a 16-slot ring (one slot
//! stays free, so at most 15 events wait); the GUI takes them in order.
use vstd::prelude::*;
use crate::mmio::RegOp;

verus! {

pub const D1_I2C2_BASE: usize = 0x0250_2000;
pub const TOUCH_INT_STATUS: usize = 0x0250_2100;
pub const TOUCH_STATUS: usize = 0x0250_2104;
pub const TOUCH_X: usize = 0x0250_2108;
pub const TOUCH_Y: usize = 0x0250_210C;
pub const KEY_COUNT: usize = 0x0250_211C;
pub const CHAR_COUNT: usize = 0x0250_2128;

/// Synchronization event (evdev).
pub const EV_SYN: u16 = 0x00;
/// Key or button event (evdev).
pub const EV_KEY: u16 = 0x01;
/// Absolute axis event (evdev).
pub const EV_ABS: u16 = 0x03;
/// A typed character (the input layer's own event type).
pub const EV_CHAR: u16 = 0x20;
pub const ABS_X: u16 = 0x00;
pub const ABS_Y: u16 = 0x01;
pub const BTN_TOUCH: u16 = 0x14a;

/// Ring slots.
pub const EVENT_SLOTS: usize = 16;

/// FT6336 identification values the probe accepts.
pub open spec fn is_ft6336_id(id: u8) -> bool {
    id == 0x64 || id == 0x11 || id == 0x36 || id == 0x06
}

/// An input event.
#[derive(Clone, Copy, PartialEq, Eq, Structural)]
pub struct InputEvent {
    pub event_type: u16,
    pub code: u16,
    pub value: i32,
}

pub open spec fn syn_event() -> InputEvent {
    InputEvent { event_type: EV_SYN, code: 0, value: 0 }
}

/// Touch tracking and the event ring.
pub struct TouchState {
    pub pressed: bool,
    pub last_x: i32,
    pub last_y: i32,
    pub events: Vec<Option<InputEvent>>,
    pub head: usize,
    pub tail: usize,
    /// Input samples seen (wrapping).
    pub event_count: u32,
}

impl TouchState {
    pub open spec fn wf(&self) -> bool {
        &&& self.events@.len() == EVENT_SLOTS
        &&& self.head < EVENT_SLOTS
        &&& self.tail < EVENT_SLOTS
        &&& forall|i: int|
            0 <= i < self.pending_len() ==> (#[trigger] self.events@[(self.tail + i) % 16]) is Some
    }

    /// Number of waiting events.
    pub open spec fn pending_len(&self) -> int {
        (self.head - self.tail + 16) % 16
    }

    /// The waiting events, oldest first.
    pub open spec fn pending(&self) -> Seq<InputEvent> {
        Seq::new(self.pending_len() as nat, |i: int| self.events@[(self.tail + i) % 16]->Some_0)
    }

    /// Nothing pressed, no position yet, no events.
    pub fn new() -> (s: Self)
        ensures
            s.wf(),
            s.pending().len() == 0,
            !s.pressed,
            s.last_x == -1,
            s.last_y == -1,
            s.event_count == 0,
    {
        TouchState {
            pressed: false,
            last_x: -1,
            last_y: -1,
            events: vec![None; EVENT_SLOTS],
            head: 0,
            tail: 0,
            event_count: 0,
        }
    }

    /// Queue an event; with 15 waiting it is dropped.
    pub fn push_event(&mut self, event: InputEvent)
        requires
            old(self).wf(),
        ensures
            final(self).wf(),
            old(self).pending().len() < 15 ==> final(self).pending() == old(self).pending().push(event),
            old(self).pending().len() >= 15 ==> final(self).pending() == old(self).pending(),
            final(self).pressed == old(self).pressed,
            final(self).last_x == old(self).last_x,
            final(self).last_y == old(self).last_y,
            final(self).event_count == old(self).event_count,
    {
        let next = (self.head + 1) % EVENT_SLOTS;
        if next != self.tail {
            let ghost p0 = self.pending();
            self.events.set(self.head, Some(event));
            self.head = next;
            proof {
                assert(self.pending_len() == p0.len() + 1);
                assert forall|i: int| 0 <= i < self.pending_len() implies (#[trigger] self.events@[(self.tail
                    + i) % 16]) is Some by {
                    if i < p0.len() {
                        assert((self.tail + i) % 16 != old(self).head);
                    } else {
                        assert((self.tail + i) % 16 == old(self).head);
                    }
                }
                assert forall|i: int| 0 <= i < self.pending_len() implies #[trigger] self.pending()[i]
                    == p0.push(event)[i] by {
                    if i < p0.len() {
                        assert((self.tail + i) % 16 != old(self).head);
                    } else {
                        assert((self.tail + i) % 16 == old(self).head);
                    }
                }
                assert(self.pending() =~= p0.push(event));
            }
        } else {
            assert(old(self).pending_len() == 15);
        }
    }

    /// Take the oldest event.
    pub fn pop_event(&mut self) -> (r: Option<InputEvent>)
        requires
            old(self).wf(),
        ensures
            final(self).wf(),
            old(self).pending().len() == 0 ==> r is None && final(self).pending() == old(self).pending(),
            old(self).pending().len() > 0 ==> r == Some(old(self).pending()[0]) && final(self).pending()
                == old(self).pending().drop_first(),
            final(self).pressed == old(self).pressed,
            final(self).last_x == old(self).last_x,
            final(self).last_y == old(self).last_y,
            final(self).event_count == old(self).event_count,
    {
        if self.tail == self.head {
            return None;
        }
        let ghost p0 = self.pending();
        assert(self.events@[(self.tail + 0) % 16] is Some);
        let event = self.events[self.tail];
        self.events.set(self.tail, None);
        self.tail = (self.tail + 1) % EVENT_SLOTS;
        proof {
            assert(self.pending_len() == p0.len() - 1);
            assert forall|i: int| 0 <= i < self.pending_len() implies (#[trigger] self.events@[(self.tail
                + i) % 16]) is Some by {
                assert((self.tail + i) % 16 == (old(self).tail + (i + 1)) % 16);
                assert((self.tail + i) % 16 != old(self).tail);
            }
            assert forall|i: int| 0 <= i < self.pending_len() implies #[trigger] self.pending()[i]
                == p0.drop_first()[i] by {
                assert((self.tail + i) % 16 == (old(self).tail + (i + 1)) % 16);
                assert((self.tail + i) % 16 != old(self).tail);
            }
            assert(self.pending() =~= p0.drop_first());
        }
        event
    }

    /// Whether events are waiting.
    pub fn has_events(&self) -> (r: bool)
        requires
            self.wf(),
        ensures
            r == (self.pending().len() > 0),
    {
        self.tail != self.head
    }
}

/// The events of a touch sample: position changes (every axis on a new touch),
/// the touch press once, and a sync; a release reports the button up and a sync.
pub open spec fn touch_events(pressed: bool, last_x: i32, last_y: i32, touching: bool, x: i32, y: i32) -> Seq<InputEvent> {
    if touching {
        let new_touch = !pressed;
        let ex = if x != last_x || new_touch {
            seq![InputEvent { event_type: EV_ABS, code: ABS_X, value: x }]
        } else {
            Seq::empty()
        };
        let ey = if y != last_y || new_touch {
            seq![InputEvent { event_type: EV_ABS, code: ABS_Y, value: y }]
        } else {
            Seq::empty()
        };
        let eb = if new_touch {
            seq![InputEvent { event_type: EV_KEY, code: BTN_TOUCH, value: 1 }]
        } else {
            Seq::empty()
        };
        ex + ey + eb + seq![syn_event()]
    } else if pressed {
        seq![InputEvent { event_type: EV_KEY, code: BTN_TOUCH, value: 0 }, syn_event()]
    } else {
        Seq::empty()
    }
}

/// The ring's contents after queueing `events` one by one (those that find no room are dropped).
pub open spec fn queued_after(pending: Seq<InputEvent>, events: Seq<InputEvent>) -> Seq<InputEvent>
    decreases events.len(),
{
    if events.len() == 0 {
        pending
    } else {
        let before = queued_after(pending, events.drop_last());
        if before.len() < 15 {
            before.push(events.last())
        } else {
            before
        }
    }
}

proof fn lemma_queued_after_bound(pending: Seq<InputEvent>, events: Seq<InputEvent>)
    requires
        pending.len() <= 15,
    ensures
        queued_after(pending, events).len() <= 15,
    decreases events.len(),
{
    if events.len() > 0 {
        lemma_queued_after_bound(pending, events.drop_last());
    }
}

fn push_all(st: &mut TouchState, events: &Vec<InputEvent>)
    requires
        old(st).wf(),
    ensures
        final(st).wf(),
        final(st).pending() == queued_after(old(st).pending(), events@),
        final(st).pressed == old(st).pressed,
        final(st).last_x == old(st).last_x,
        final(st).last_y == old(st).last_y,
        final(st).event_count == old(st).event_count,
{
    let mut i: usize = 0;
    while i < events.len()
        invariant
            st.wf(),
            i <= events@.len(),
            st.pending() == queued_after(old(st).pending(), events@.take(i as int)),
            st.pressed == old(st).pressed,
            st.last_x == old(st).last_x,
            st.last_y == old(st).last_y,
            st.event_count == old(st).event_count,
        decreases events@.len() - i,
    {
        assert(events@.take(i + 1).drop_last() =~= events@.take(i as int));
        st.push_event(events[i]);
        i = i + 1;
    }
    assert(events@.take(events@.len() as int) =~= events@);
}

/// Apply a touch sample: queue its events and track press and position.
pub fn apply_touch(st: &mut TouchState, touching: bool, x: i32, y: i32)
    requires
        old(st).wf(),
    ensures
        final(st).wf(),
        final(st).pending() == queued_after(
            old(st).pending(),
            touch_events(old(st).pressed, old(st).last_x, old(st).last_y, touching, x, y),
        ),
        final(st).pressed == touching,
        touching ==> final(st).last_x == (if x != old(st).last_x || !old(st).pressed {
            x
        } else {
            old(st).last_x
        }) && final(st).last_y == (if y != old(st).last_y || !old(st).pressed {
            y
        } else {
            old(st).last_y
        }),
        !touching ==> final(st).last_x == old(st).last_x && final(st).last_y == old(st).last_y,
        final(st).event_count == old(st).event_count,
{
    let mut events: Vec<InputEvent> = Vec::new();
    if touching {
        let new_touch = !st.pressed;
        if x != st.last_x || new_touch {
            st.last_x = x;
            events.push(InputEvent { event_type: EV_ABS, code: ABS_X, value: x });
        }
        if y != st.last_y || new_touch {
            st.last_y = y;
            events.push(InputEvent { event_type: EV_ABS, code: ABS_Y, value: y });
        }
        if new_touch {
            st.pressed = true;
            events.push(InputEvent { event_type: EV_KEY, code: BTN_TOUCH, value: 1 });
        }
        events.push(InputEvent { event_type: EV_SYN, code: 0, value: 0 });
    } else if st.pressed {
        st.pressed = false;
        events.push(InputEvent { event_type: EV_KEY, code: BTN_TOUCH, value: 0 });
        events.push(InputEvent { event_type: EV_SYN, code: 0, value: 0 });
    }
    assert(events@ =~= touch_events(old(st).pressed, old(st).last_x, old(st).last_y, touching, x, y));
    push_all(st, &events);
}

/// What one poll read from the emulator's registers: the characters and
/// (key code, key state) pairs it drained, and, if a touch interrupt was
/// pending, the touch status, X and Y registers.
pub struct PollInput {
    pub chars: Vec<u8>,
    pub keys: Vec<(u32, u32)>,
    pub touch: Option<(u32, u32, u32)>,
}

/// The events of the drained characters and keys, each followed by a sync.
pub open spec fn char_key_events(chars: Seq<u8>, keys: Seq<(u32, u32)>) -> Seq<InputEvent> {
    Seq::new(2 * chars.len(), |i: int| if i % 2 == 0 {
        InputEvent { event_type: EV_CHAR, code: chars[i / 2] as u16, value: 1 }
    } else {
        syn_event()
    }) + Seq::new(2 * keys.len(), |i: int| if i % 2 == 0 {
        InputEvent { event_type: EV_KEY, code: keys[i / 2].0 as u16, value: keys[i / 2].1 as i32 }
    } else {
        syn_event()
    })
}

/// A touch status register with its data-ready bit set.
pub open spec fn touch_data_ready(status: u32) -> bool {
    status & 0x80 != 0
}

/// Fingers on the panel, by the status register.
pub open spec fn touch_count(status: u32) -> u32 {
    status & 0x0F
}

/// Turn a poll's register readings into events. Every drained character or
/// key counts as a sample; so does a touch sample with data ready, which is
/// applied as a touch while fingers are down and as a release otherwise.
/// Returns the register writes that acknowledge the touch sample.
pub fn poll(st: &mut TouchState, input: &PollInput) -> (ops: Vec<RegOp>)
    requires
        old(st).wf(),
    ensures
        final(st).wf(),
        ({
            let base = queued_after(old(st).pending(), char_key_events(input.chars@, input.keys@));
            match input.touch {
                Some((status, x, y)) => if touch_data_ready(status) {
                    &&& final(st).pending() == queued_after(
                        base,
                        touch_events(
                            old(st).pressed,
                            old(st).last_x,
                            old(st).last_y,
                            touch_count(status) > 0,
                            x as i32,
                            y as i32,
                        ),
                    )
                    &&& final(st).pressed == (touch_count(status) > 0)
                    &&& ops@ == seq![
                        RegOp::Write { addr: TOUCH_STATUS, value: 0 },
                        RegOp::Write { addr: TOUCH_INT_STATUS, value: 0 },
                    ]
                } else {
                    &&& final(st).pending() == base
                    &&& final(st).pressed == old(st).pressed
                    &&& ops@ == seq![RegOp::Write { addr: TOUCH_INT_STATUS, value: 0 }]
                },
                None => {
                    &&& final(st).pending() == base
                    &&& final(st).pressed == old(st).pressed
                    &&& ops@.len() == 0
                },
            }
        }),
        ({
            let touched = input.touch matches Some((status, _, _)) && touch_data_ready(status) && touch_count(status) > 0;
            let sampled = input.touch matches Some((status, _, _)) && touch_data_ready(status);
            &&& final(st).event_count == (old(st).event_count + input.chars@.len() + input.keys@.len() + (if sampled {
                1int
            } else {
                0int
            })) % 0x1_0000_0000
            &&& touched ==> final(st).last_x == input.touch.unwrap().1 as i32 && final(st).last_y == input.touch.unwrap().2 as i32
            &&& !touched ==> final(st).last_x == old(st).last_x && final(st).last_y == old(st).last_y
        }),
{
    let mut events: Vec<InputEvent> = Vec::new();
    let mut count = st.event_count;
    let mut i: usize = 0;
    while i < input.chars.len()
        invariant
            i <= input.chars@.len(),
            events@ == char_key_events(input.chars@.take(i as int), Seq::empty()),
            count == (old(st).event_count + i) % 0x1_0000_0000,
        decreases input.chars@.len() - i,
    {
        let ghost e0 = events@;
        count = count.wrapping_add(1);
        events.push(InputEvent { event_type: EV_CHAR, code: input.chars[i] as u16, value: 1 });
        events.push(InputEvent { event_type: EV_SYN, code: 0, value: 0 });
        i = i + 1;
        assert(events@ =~= char_key_events(input.chars@.take(i as int), Seq::empty()));
    }
    assert(input.chars@.take(input.chars@.len() as int) =~= input.chars@);
    let mut k: usize = 0;
    while k < input.keys.len()
        invariant
            k <= input.keys@.len(),
            events@ == char_key_events(input.chars@, input.keys@.take(k as int)),
            count == (old(st).event_count + input.chars@.len() + k) % 0x1_0000_0000,
        decreases input.keys@.len() - k,
    {
        count = count.wrapping_add(1);
        let (code, state) = input.keys[k];
        events.push(InputEvent { event_type: EV_KEY, code: code as u16, value: state as i32 });
        events.push(InputEvent { event_type: EV_SYN, code: 0, value: 0 });
        k = k + 1;
        assert(events@ =~= char_key_events(input.chars@, input.keys@.take(k as int)));
    }
    assert(input.keys@.take(input.keys@.len() as int) =~= input.keys@);
    push_all(st, &events);
    st.event_count = count;
    let mut ops: Vec<RegOp> = Vec::new();
    match input.touch {
        Some((status, x, y)) => {
            if status & 0x80 != 0 {
                st.event_count = st.event_count.wrapping_add(1);
                apply_touch(st, status & 0x0F > 0, x as i32, y as i32);
                ops.push(RegOp::Write { addr: TOUCH_STATUS, value: 0 });
            }
            ops.push(RegOp::Write { addr: TOUCH_INT_STATUS, value: 0 });
        },
        None => {},
    }
    ops
}

/// The FT6336 controller's touch sample: the touch count from TD_STATUS and
/// 12-bit coordinates from the high (low nibble) and low position bytes. A
/// failed status read leaves everything as it was.
pub fn ft6336_poll(st: &mut TouchState, td_status: Option<u8>, xh: u8, xl: u8, yh: u8, yl: u8)
    requires
        old(st).wf(),
    ensures
        final(st).wf(),
        td_status is None ==> final(st).pending() == old(st).pending() && final(st).pressed
            == old(st).pressed,
        td_status matches Some(n) ==> final(st).pending() == queued_after(
            old(st).pending(),
            touch_events(
                old(st).pressed,
                old(st).last_x,
                old(st).last_y,
                n % 16 > 0,
                ((xh % 16) * 256 + xl) as i32,
                ((yh % 16) * 256 + yl) as i32,
            ),
        ) && final(st).pressed == (n % 16 > 0),
        td_status matches Some(n) && n % 16 > 0 ==> final(st).last_x == ((xh % 16) * 256 + xl) as i32
            && final(st).last_y == ((yh % 16) * 256 + yl) as i32,
        !(td_status matches Some(n) && n % 16 > 0) ==> final(st).last_x == old(st).last_x && final(st).last_y
            == old(st).last_y,
        final(st).event_count == old(st).event_count,
{
    match td_status {
        Some(v) => {
            let n = v & 0x0F;
            assert(v & 0x0F == v % 16) by (bit_vector);
            let x: i32 = ((xh & 0x0F) as i32) * 256 + xl as i32;
            let y: i32 = ((yh & 0x0F) as i32) * 256 + yl as i32;
            assert(xh & 0x0F == xh % 16) by (bit_vector);
            assert(yh & 0x0F == yh % 16) by (bit_vector);
            apply_touch(st, n > 0, x, y);
        },
        None => {},
    }
}

/// The probe's verdict on the controller's identification register.
pub fn twi_probe_ft6336(id: Option<u8>) -> (found: bool)
    ensures
        found == (id matches Some(v) && is_ft6336_id(v)),
{
    match id {
        Some(v) => v == 0x64 || v == 0x11 || v == 0x36 || v == 0x06,
        None => false,
    }
}

/// Set input up: with an FT6336 found (by its identification register) the
/// panel is read over TWI; otherwise the emulated registers are cleared.
/// Returns whether TWI is used and the register writes.
pub fn init(probe_id: Option<u8>) -> (r: Result<(bool, Vec<RegOp>), &'static str>)
    ensures
        r matches Ok((use_twi, ops)) && use_twi == (probe_id matches Some(v) && is_ft6336_id(v)) && (
        use_twi ==> ops@.len() == 0) && (!use_twi ==> ops@ == seq![
            RegOp::Write { addr: TOUCH_INT_STATUS, value: 0 },
            RegOp::Write { addr: TOUCH_STATUS, value: 0 },
        ]),
{
    let mut ops: Vec<RegOp> = Vec::new();
    if twi_probe_ft6336(probe_id) {
        return Ok((true, ops));
    }
    ops.push(RegOp::Write { addr: TOUCH_INT_STATUS, value: 0 });
    ops.push(RegOp::Write { addr: TOUCH_STATUS, value: 0 });
    Ok((false, ops))
}

/// Input samples seen.
pub fn get_event_count(st: &TouchState) -> (r: u32)
    ensures
        r == st.event_count,
{
    st.event_count
}

/// The oldest waiting event.
pub fn next_event(st: &mut TouchState) -> (r: Option<InputEvent>)
    requires
        old(st).wf(),
    ensures
        final(st).wf(),
        old(st).pending().len() == 0 ==> r is None && final(st).pending() == old(st).pending(),
        old(st).pending().len() > 0 ==> r == Some(old(st).pending()[0]) && final(st).pending()
            == old(st).pending().drop_first(),
{
    st.pop_event()
}

/// Whether events are waiting.
pub fn has_events(st: &TouchState) -> (r: bool)
    requires
        st.wf(),
    ensures
        r == (st.pending().len() > 0),
{
    st.has_events()
}

/// Whether a character is waiting, by the character count register.
pub fn has_char_input(char_count: u32) -> (r: bool)
    ensures
        r == (char_count > 0),
{
    char_count > 0
}

/// The waiting character, by the character count and code registers.
pub fn peek_char(char_count: u32, char_code: u32) -> (r: Option<u8>)
    ensures
        char_count > 0 ==> r == Some(char_code as u8),
        char_count == 0 ==> r is None,
{
    if char_count > 0 {
        Some(char_code as u8)
    } else {
        None
    }
}

/// Acknowledge the waiting character.
pub fn consume_char() -> (op: RegOp)
    ensures
        op == (RegOp::Write { addr: CHAR_COUNT, value: 0 }),
{
    RegOp::Write { addr: CHAR_COUNT, value: 0 }
}

// ─── The TWI bus and the FT6336 ──────────────────────────────────────────────

pub const TWI_BASE: usize = 0x0250_2000;
pub const TWI_DATA: usize = 0x0250_2008;
pub const TWI_CNTR: usize = 0x0250_200C;
pub const TWI_STAT: usize = 0x0250_2010;
pub const TWI_CCR: usize = 0x0250_2014;
pub const TWI_SRST: usize = 0x0250_2018;
/// The FT6336's bus address.
pub const FT_ADDR: u8 = 0x38;
pub const FT_ID_REG: u8 = 0xA3;
pub const FT_TD_STATUS: u8 = 0x02;
pub const CNTR_BUS_EN: u32 = 0x40;
pub const CNTR_M_STA: u32 = 0x20;
pub const CNTR_M_STP: u32 = 0x10;
pub const CNTR_INT_FLAG: u32 = 0x08;
pub const CNTR_A_ACK: u32 = 0x04;
/// Polls of the interrupt flag before a bus step times out.
pub const TWI_POLLS: usize = 50_000;
/// Spin iterations the controller is held in reset.
pub const TWI_RESET_SPINS: u32 = 1000;

/// The bus status after a step: the first poll (within the limit) whose
/// control register has the interrupt flag gives the status register's low
/// byte; none is a timeout.
pub open spec fn wait_flag_from(polls: Seq<(u32, u32)>, i: int) -> Option<u32>
    decreases polls.len() - i,
{
    if i < 0 || i >= polls.len() || i >= TWI_POLLS {
        None
    } else if polls[i].0 & CNTR_INT_FLAG != 0 {
        Some(polls[i].1 & 0xFF)
    } else {
        wait_flag_from(polls, i + 1)
    }
}

/// Wait for the bus step to finish (see `wait_flag_from`); `polls` are the
/// successive (control, status) readings.
pub fn twi_wait_flag(polls: &[(u32, u32)]) -> (r: Option<u32>)
    ensures
        r == wait_flag_from(polls@, 0),
{
    let mut i: usize = 0;
    while i < polls.len() && i < TWI_POLLS
        invariant
            i <= polls@.len(),
            i <= TWI_POLLS,
            wait_flag_from(polls@, 0) == wait_flag_from(polls@, i as int),
        decreases polls@.len() - i,
    {
        let (c, st) = polls[i];
        if c & CNTR_INT_FLAG != 0 {
            return Some(st & 0xFF);
        }
        i = i + 1;
    }
    None
}

/// The control register value that acknowledges a step: the interrupt flag
/// cleared, the acknowledge bit set or cleared, `extra` added.
pub fn twi_clear_flag(cntr: u32, ack: bool, extra: u32) -> (c: u32)
    ensures
        c == if ack {
            ((cntr & !CNTR_INT_FLAG) | CNTR_A_ACK) | extra
        } else {
            ((cntr & !CNTR_INT_FLAG) & !CNTR_A_ACK) | extra
        },
{
    let mut c = cntr & !CNTR_INT_FLAG;
    if ack {
        c = c | CNTR_A_ACK;
    } else {
        c = c & !CNTR_A_ACK;
    }
    c | extra
}

/// The control register value that ends a transfer: a stop condition, the
/// interrupt flag cleared.
pub fn twi_stop(cntr: u32) -> (c: u32)
    ensures
        c == (cntr | CNTR_M_STP) & !CNTR_INT_FLAG,
{
    (cntr | CNTR_M_STP) & !CNTR_INT_FLAG
}

/// The bus set up for a transfer: the controller reset, the clock set, the
/// bus enabled, and a start condition.
pub open spec fn twi_setup() -> Seq<RegOp> {
    seq![
        RegOp::Write { addr: TWI_SRST, value: 1 },
        RegOp::Spin { count: TWI_RESET_SPINS },
        RegOp::Write { addr: TWI_SRST, value: 0 },
        RegOp::Write { addr: TWI_CCR, value: 0x43 },
        RegOp::Write { addr: TWI_CNTR, value: CNTR_BUS_EN },
        RegOp::Write { addr: TWI_CNTR, value: CNTR_BUS_EN | CNTR_M_STA },
    ]
}

pub fn twi_setup_ops() -> (ops: Vec<RegOp>)
    ensures
        ops@ == twi_setup(),
{
    let mut ops: Vec<RegOp> = Vec::new();
    ops.push(RegOp::Write { addr: TWI_SRST, value: 1 });
    ops.push(RegOp::Spin { count: TWI_RESET_SPINS });
    ops.push(RegOp::Write { addr: TWI_SRST, value: 0 });
    ops.push(RegOp::Write { addr: TWI_CCR, value: 0x43 });
    ops.push(RegOp::Write { addr: TWI_CNTR, value: CNTR_BUS_EN });
    ops.push(RegOp::Write { addr: TWI_CNTR, value: CNTR_BUS_EN | CNTR_M_STA });
    assert(ops@ =~= twi_setup());
    ops
}

/// What the bus must answer after each step of a register read: start sent
/// (0x08, or 0x10 as a repeated start), address+write acknowledged (0x18),
/// register number acknowledged (0x28), repeated start (0x10 or 0x08),
/// address+read acknowledged (0x40); the last byte's status is not checked.
pub open spec fn twi_expected(step: int, st: u32) -> bool {
    if step == 0 || step == 3 {
        st == 0x08 || st == 0x10
    } else if step == 1 {
        st == 0x18
    } else if step == 2 {
        st == 0x28
    } else if step == 4 {
        st == 0x40
    } else {
        true
    }
}

/// How a register read over the bus ends.
#[derive(Clone, Copy, PartialEq, Eq, Structural)]
pub enum TwiOutcome {
    /// A step timed out: the read gives nothing (no stop is sent).
    TimedOut { step: usize },
    /// The bus answered a step wrongly: a stop is sent and the read gives nothing.
    Refused { step: usize },
    /// All six steps went through: the data register holds the byte; a stop is sent.
    Read,
}

/// The end of a read, from the status each step gave (`None`: it timed out),
/// from step `i` on.
pub open spec fn twi_outcome_from(statuses: Seq<Option<u32>>, i: int) -> TwiOutcome
    decreases 6 - i,
{
    if i < 0 || i >= 6 {
        TwiOutcome::Read
    } else if i >= statuses.len() || statuses[i] is None {
        TwiOutcome::TimedOut { step: i as usize }
    } else if !twi_expected(i, statuses[i].unwrap()) {
        TwiOutcome::Refused { step: i as usize }
    } else {
        twi_outcome_from(statuses, i + 1)
    }
}

/// Read an FT6336 register over the bus: the statuses of its six steps
/// decide how it ends (see `twi_outcome_from`); a completed read gives the
/// data register's low byte.
pub fn twi_read_reg(statuses: &[Option<u32>], data: u32) -> (r: (TwiOutcome, Option<u8>))
    ensures
        r.0 == twi_outcome_from(statuses@, 0),
        r.1 == if r.0 is Read { Some(data as u8) } else { None },
{
    let mut i: usize = 0;
    while i < 6
        invariant
            i <= 6,
            twi_outcome_from(statuses@, 0) == twi_outcome_from(statuses@, i as int),
        decreases 6 - i,
    {
        if i >= statuses.len() {
            return (TwiOutcome::TimedOut { step: i }, None);
        }
        match statuses[i] {
            None => {
                return (TwiOutcome::TimedOut { step: i }, None);
            },
            Some(st) => {
                let ok = if i == 0 || i == 3 {
                    st == 0x08 || st == 0x10
                } else if i == 1 {
                    st == 0x18
                } else if i == 2 {
                    st == 0x28
                } else if i == 4 {
                    st == 0x40
                } else {
                    true
                };
                if !ok {
                    return (TwiOutcome::Refused { step: i }, None);
                }
            },
        }
        i = i + 1;
    }
    (TwiOutcome::Read, Some(data as u8))
}

} // verus!
