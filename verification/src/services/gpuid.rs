//! The GUI daemon's decisions: when it wakes, how an input event reaches the
//! UI, when it may sleep, and when a tick counts as active.
use vstd::prelude::*;
use vstd::string::StringSliceAdditionalSpecFns;
use crate::platform::d1_touch::{InputEvent, ABS_X, ABS_Y, EV_ABS};
use crate::perfstat::{inc, PerfCounters, GPUID_ACTIVE_TICKS, GPUID_TICKS};

verus! {

/// How often the main screen's hardware statistics refresh.
pub const STATS_REFRESH_MS: u64 = 2000;
/// How long an idle tick sleeps.
pub const IDLE_SLEEP_MS: u64 = 8;

/// Note that input arrived (the caller then interrupts the daemon's hart).
pub fn signal_input_ready(input_ready: &mut bool)
    ensures
        *final(input_ready),
{
    *input_ready = true;
}

pub fn is_input_ready(input_ready: &bool) -> (r: bool)
    ensures
        r == *input_ready,
{
    *input_ready
}

pub fn clear_input_ready(input_ready: &mut bool)
    ensures
        !*final(input_ready),
{
    *input_ready = false;
}

pub open spec fn gpuid_name() -> Seq<u8> {
    seq![0x67u8, 0x70, 0x75, 0x69, 0x64]
}

/// Whether the scheduler should wake the task called `name`: only gpuid, and
/// only with input flagged, UI input queued, or the scene wanting a tick.
pub fn should_wake(name: &str, input_ready: bool, queue_pending: bool, scene_wants_tick: bool) -> (r: bool)
    ensures
        r == (name.spec_bytes() == gpuid_name() && (input_ready || queue_pending || scene_wants_tick)),
{
    let b = name.as_bytes();
    let is_gpuid = b.len() == 5 && b[0] == 0x67 && b[1] == 0x70 && b[2] == 0x75 && b[3] == 0x69 && b[4]
        == 0x64;
    assert(is_gpuid == (b@ == gpuid_name())) by {
        if is_gpuid {
            assert(b@ =~= gpuid_name());
        }
    }
    is_gpuid && (input_ready || queue_pending || scene_wants_tick)
}

/// Whether the statistics are due at `now` (two seconds since the last
/// refresh, counted modulo 2^64); a due refresh is recorded.
pub fn stats_refresh_due(last_stats_ms: &mut u64, now: u64) -> (due: bool)
    ensures
        due == (now.wrapping_sub(*old(last_stats_ms)) >= STATS_REFRESH_MS),
        due ==> *final(last_stats_ms) == now,
        !due ==> *final(last_stats_ms) == *old(last_stats_ms),
{
    if now.wrapping_sub(*last_stats_ms) >= STATS_REFRESH_MS {
        *last_stats_ms = now;
        true
    } else {
        false
    }
}

/// Where an input event goes.
#[derive(Clone, Copy, PartialEq, Eq, Structural)]
pub enum UiInput {
    /// Move the cursor's X coordinate.
    CursorX(i32),
    /// Move the cursor's Y coordinate.
    CursorY(i32),
    /// An axis the main screen ignores.
    Ignored,
    /// Give the event to the main screen's input handler.
    MainScreen(InputEvent),
    /// Give the event to the UI manager.
    Manager(InputEvent),
}

/// Where `event` goes: on the main screen X and Y positions move the cursor,
/// other absolute axes are ignored and everything else goes to its handler;
/// elsewhere everything goes to the UI manager.
pub open spec fn route_input(event: InputEvent, is_main_screen: bool) -> UiInput {
    if !is_main_screen {
        UiInput::Manager(event)
    } else if event.event_type == EV_ABS {
        if event.code == ABS_X {
            UiInput::CursorX(event.value)
        } else if event.code == ABS_Y {
            UiInput::CursorY(event.value)
        } else {
            UiInput::Ignored
        }
    } else {
        UiInput::MainScreen(event)
    }
}

/// Route an input event (see `route_input`).
pub fn apply_input_event(event: InputEvent, is_main_screen: bool) -> (r: UiInput)
    ensures
        r == route_input(event, is_main_screen),
{
    if is_main_screen {
        if event.event_type == EV_ABS {
            if event.code == ABS_X {
                UiInput::CursorX(event.value)
            } else if event.code == ABS_Y {
                UiInput::CursorY(event.value)
            } else {
                UiInput::Ignored
            }
        } else {
            UiInput::MainScreen(event)
        }
    } else {
        UiInput::Manager(event)
    }
}

/// Whether a tick has nothing to do and sleeps: no touch events, nothing to
/// flush, no statistics due, no queued UI input, no scene tick wanted.
pub fn gpuid_idle(
    touch_has_events: bool,
    frame_dirty: bool,
    stats_due: bool,
    queue_pending: bool,
    scene_wants_tick: bool,
) -> (idle: bool)
    ensures
        idle == (!touch_has_events && !frame_dirty && !stats_due && !queue_pending && !scene_wants_tick),
{
    !touch_has_events && !frame_dirty && !stats_due && !queue_pending && !scene_wants_tick
}

/// Whether a tick counts as active: it had input, a button action, or a flush.
pub fn gpuid_active(had_input: bool, had_button_action: bool, flushed: bool) -> (active: bool)
    ensures
        active == (had_input || had_button_action || flushed),
{
    had_input || had_button_action || flushed
}

/// What the daemon carries from one step of a tick to the next.
#[derive(Clone, Copy, PartialEq, Eq, Structural)]
pub struct GpuidState {
    /// Input was signalled since the flag was last cleared.
    pub input_ready: bool,
    /// When the hardware statistics were last refreshed (ms).
    pub last_stats_ms: u64,
    /// The current tick runs on the main screen.
    pub is_main_screen: bool,
    /// The current tick took a touch event.
    pub had_input: bool,
    /// The current tick produced a main-screen button action.
    pub had_button_action: bool,
}

impl GpuidState {
    pub fn new() -> (s: Self)
        ensures
            s == (GpuidState {
                input_ready: false,
                last_stats_ms: 0,
                is_main_screen: false,
                had_input: false,
                had_button_action: false,
            }),
    {
        GpuidState {
            input_ready: false,
            last_stats_ms: 0,
            is_main_screen: false,
            had_input: false,
            had_button_action: false,
        }
    }
}

/// What the daemon's surroundings report back after each step.
#[derive(Clone, Copy, PartialEq, Eq, Structural)]
pub enum GpuidEvent {
    /// A tick begins. `console`: the boot console still owns the screen;
    /// `display_available`: a display can be reached at all.
    Tick { console: bool, display_available: bool },
    /// Input was polled and re-armed and the queued UI work drained: what
    /// that left behind, and the time.
    Drained {
        had_button_action: bool,
        now: u64,
        touch_has_events: bool,
        frame_dirty: bool,
        queue_pending: bool,
        scene_wants_tick: bool,
        is_main_screen: bool,
    },
    /// The next touch event, or `None` when there is none left.
    Touch(Option<InputEvent>),
    /// An event was delivered; whether it produced a main-screen button action.
    Delivered { button_action: bool },
    /// The frame was rendered; whether anything waits to be flushed.
    Rendered { frame_dirty: bool },
}

/// The next thing for the surroundings to do.
#[derive(Clone, Copy, PartialEq, Eq, Structural)]
pub enum GpuidAction {
    /// Leave the boot console for the GUI: announce it, clear the display,
    /// set up and render the main screen, flush if dirty, and then re-arm the
    /// input sources when `rearm_input`. The tick ends.
    BootToGui { rearm_input: bool },
    /// Poll and re-arm the input sources, drain the queued UI work and mirror
    /// a guest cancel, then report `Drained`.
    DrainInput,
    /// Nothing to do: sleep this many milliseconds. The tick ends.
    Sleep(u64),
    /// Fetch the next touch event and report `Touch`.
    NextTouch,
    /// Deliver this input and report `Delivered`.
    Deliver(UiInput),
    /// Mirror a guest cancel, then render: on the main screen check for GUI
    /// command completion, refresh the hardware statistics when
    /// `refresh_stats`, and publish; elsewhere render if dirty. Report `Rendered`.
    Render { main_screen: bool, refresh_stats: bool },
    /// The tick ends, with a flush first when `flush`.
    Finish { flush: bool },
}

/// One step of the daemon's service tick (multi-hart mode).
pub open spec fn service_step(s: GpuidState, ev: GpuidEvent) -> (GpuidState, GpuidAction) {
    match ev {
        GpuidEvent::Tick { console, .. } => {
            if console {
                (s, GpuidAction::BootToGui { rearm_input: true })
            } else {
                (
                    GpuidState { input_ready: false, had_input: false, had_button_action: false, ..s },
                    GpuidAction::DrainInput,
                )
            }
        },
        GpuidEvent::Drained {
            had_button_action,
            now,
            touch_has_events,
            frame_dirty,
            queue_pending,
            scene_wants_tick,
            is_main_screen,
        } => {
            let due = now.wrapping_sub(s.last_stats_ms) >= STATS_REFRESH_MS;
            let last = if due { now } else { s.last_stats_ms };
            if !touch_has_events && !frame_dirty && !due && !queue_pending && !scene_wants_tick {
                (GpuidState { last_stats_ms: last, ..s }, GpuidAction::Sleep(IDLE_SLEEP_MS))
            } else {
                (
                    GpuidState {
                        last_stats_ms: last,
                        is_main_screen,
                        had_input: false,
                        had_button_action,
                        ..s
                    },
                    GpuidAction::NextTouch,
                )
            }
        },
        GpuidEvent::Touch(Some(e)) => (
            GpuidState { had_input: true, ..s },
            GpuidAction::Deliver(route_input(e, s.is_main_screen)),
        ),
        GpuidEvent::Delivered { button_action } => (
            GpuidState { had_button_action: s.had_button_action || button_action, ..s },
            GpuidAction::NextTouch,
        ),
        GpuidEvent::Touch(None) => (
            s,
            GpuidAction::Render { main_screen: s.is_main_screen, refresh_stats: !s.had_input },
        ),
        GpuidEvent::Rendered { frame_dirty } => (s, GpuidAction::Finish { flush: frame_dirty }),
    }
}

/// Whether a service step ends an active tick: it finishes the frame after
/// input, a button action or a flush.
pub open spec fn step_is_active(s: GpuidState, ev: GpuidEvent) -> bool {
    match ev {
        GpuidEvent::Rendered { frame_dirty } => s.had_input || s.had_button_action || frame_dirty,
        _ => false,
    }
}

/// Take one step of the GUI daemon's service tick: every tick is counted,
/// and a finished tick that saw input, a button action or a flush is counted
/// as active.
pub fn gpuid_service(s: &mut GpuidState, perf: &mut PerfCounters, ev: GpuidEvent) -> (a: GpuidAction)
    requires
        old(perf).wf(),
    ensures
        (*final(s), a) == service_step(*old(s), ev),
        final(perf).wf(),
        final(perf)@ == if ev is Tick {
            old(perf)@.update(
                GPUID_TICKS as int,
                vstd::wrapping::u64_specs::wrapping_add(old(perf)@[GPUID_TICKS as int], 1),
            )
        } else if step_is_active(*old(s), ev) {
            old(perf)@.update(
                GPUID_ACTIVE_TICKS as int,
                vstd::wrapping::u64_specs::wrapping_add(old(perf)@[GPUID_ACTIVE_TICKS as int], 1),
            )
        } else {
            old(perf)@
        },
{
    match ev {
        GpuidEvent::Tick { console, .. } => {
            inc(perf, GPUID_TICKS);
            if console {
                GpuidAction::BootToGui { rearm_input: true }
            } else {
                clear_input_ready(&mut s.input_ready);
                s.had_input = false;
                s.had_button_action = false;
                GpuidAction::DrainInput
            }
        },
        GpuidEvent::Drained {
            had_button_action,
            now,
            touch_has_events,
            frame_dirty,
            queue_pending,
            scene_wants_tick,
            is_main_screen,
        } => {
            let due = stats_refresh_due(&mut s.last_stats_ms, now);
            if gpuid_idle(touch_has_events, frame_dirty, due, queue_pending, scene_wants_tick) {
                GpuidAction::Sleep(IDLE_SLEEP_MS)
            } else {
                s.is_main_screen = is_main_screen;
                s.had_input = false;
                s.had_button_action = had_button_action;
                GpuidAction::NextTouch
            }
        },
        GpuidEvent::Touch(Some(e)) => {
            s.had_input = true;
            GpuidAction::Deliver(apply_input_event(e, s.is_main_screen))
        },
        GpuidEvent::Delivered { button_action } => {
            s.had_button_action = s.had_button_action || button_action;
            GpuidAction::NextTouch
        },
        GpuidEvent::Touch(None) => {
            GpuidAction::Render { main_screen: s.is_main_screen, refresh_stats: !s.had_input }
        },
        GpuidEvent::Rendered { frame_dirty } => {
            if gpuid_active(s.had_input, s.had_button_action, frame_dirty) {
                inc(perf, GPUID_ACTIVE_TICKS);
            }
            GpuidAction::Finish { flush: frame_dirty }
        },
    }
}

/// One step of the cooperative tick (single-hart mode): it does nothing
/// without a display, does not re-arm input after the boot transition, never
/// sleeps, and ignores button actions.
pub open spec fn tick_step(s: GpuidState, ev: GpuidEvent) -> (GpuidState, GpuidAction) {
    match ev {
        GpuidEvent::Tick { console, display_available } => {
            if !display_available {
                (s, GpuidAction::Finish { flush: false })
            } else if console {
                (s, GpuidAction::BootToGui { rearm_input: false })
            } else {
                (GpuidState { had_input: false, ..s }, GpuidAction::DrainInput)
            }
        },
        GpuidEvent::Drained { is_main_screen, .. } => (
            GpuidState { is_main_screen, had_input: false, ..s },
            GpuidAction::NextTouch,
        ),
        GpuidEvent::Touch(Some(e)) => (
            GpuidState { had_input: true, ..s },
            GpuidAction::Deliver(route_input(e, s.is_main_screen)),
        ),
        GpuidEvent::Delivered { .. } => (s, GpuidAction::NextTouch),
        GpuidEvent::Touch(None) => (
            s,
            GpuidAction::Render { main_screen: s.is_main_screen, refresh_stats: !s.had_input },
        ),
        GpuidEvent::Rendered { frame_dirty } => (s, GpuidAction::Finish { flush: frame_dirty }),
    }
}

/// Take one step of the GUI daemon's cooperative tick.
pub fn gpuid_tick(s: &mut GpuidState, ev: GpuidEvent) -> (a: GpuidAction)
    ensures
        (*final(s), a) == tick_step(*old(s), ev),
{
    match ev {
        GpuidEvent::Tick { console, display_available } => {
            if !display_available {
                GpuidAction::Finish { flush: false }
            } else if console {
                GpuidAction::BootToGui { rearm_input: false }
            } else {
                s.had_input = false;
                GpuidAction::DrainInput
            }
        },
        GpuidEvent::Drained { is_main_screen, .. } => {
            s.is_main_screen = is_main_screen;
            s.had_input = false;
            GpuidAction::NextTouch
        },
        GpuidEvent::Touch(Some(e)) => {
            s.had_input = true;
            GpuidAction::Deliver(apply_input_event(e, s.is_main_screen))
        },
        GpuidEvent::Delivered { .. } => GpuidAction::NextTouch,
        GpuidEvent::Touch(None) => {
            GpuidAction::Render { main_screen: s.is_main_screen, refresh_stats: !s.had_input }
        },
        GpuidEvent::Rendered { frame_dirty } => GpuidAction::Finish { flush: frame_dirty },
    }
}

/// The queued UI work that a drain applies: nothing unless this hart owns
/// the UI; otherwise whether a cancel is forwarded to the main screen and
/// where each queued event goes.
pub struct DrainPlan {
    pub request_cancel: bool,
    pub deliveries: Vec<UiInput>,
}

/// Plan draining the UI queue: only the owner drains; a pending cancel is
/// forwarded, and every queued event is routed in order.
pub fn drain_queued_ui(is_owner: bool, cancel_pending: bool, is_main_screen: bool, queued: &Vec<InputEvent>) -> (r: Option<DrainPlan>)
    ensures
        r is Some <==> is_owner,
        r matches Some(p) ==> p.request_cancel == cancel_pending && p.deliveries@ == queued@.map_values(
            |e: InputEvent| route_input(e, is_main_screen),
        ),
{
    if !is_owner {
        return None;
    }
    let mut deliveries: Vec<UiInput> = Vec::new();
    let mut i: usize = 0;
    while i < queued.len()
        invariant
            i <= queued@.len(),
            deliveries@ == queued@.subrange(0, i as int).map_values(
                |e: InputEvent| route_input(e, is_main_screen),
            ),
        decreases queued@.len() - i,
    {
        deliveries.push(apply_input_event(queued[i], is_main_screen));
        i = i + 1;
        assert(queued@.subrange(0, i as int).drop_last() =~= queued@.subrange(0, i - 1));
    }
    assert(queued@.subrange(0, i as int) =~= queued@);
    Some(DrainPlan { request_cancel: cancel_pending, deliveries })
}

/// A guest's cancel is published when a guest is the UI client and the main
/// screen asked to cancel.
pub fn mirror_guest_cancel(guest_ui_client: bool, main_screen_cancel: bool) -> (publish: bool)
    ensures
        publish == (guest_ui_client && main_screen_cancel),
{
    guest_ui_client && main_screen_cancel
}

/// Whether queued UI work is applied on this hart now (drained, a guest
/// cancel mirrored, the main screen published): only on the owner, and only
/// with work pending.
pub fn apply_queued_if_owner(is_owner: bool, has_pending: bool) -> (apply: bool)
    ensures
        apply == (is_owner && has_pending),
{
    is_owner && has_pending
}

} // verus!
