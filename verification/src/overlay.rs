//! The selection overlay: a window over the whole screen on which the user
//! drags out the part that is to be searched.
use crate::geometry::{in_mouse_range, mouse_point, mouse_pt, norm_rect, spanned, Point, Rect};
use crate::messages::{
    VK_ESCAPE, WM_CREATE, WM_DESTROY, WM_KEYDOWN, WM_LBUTTONDOWN, WM_LBUTTONUP, WM_MOUSEMOVE,
    WM_PAINT, WM_RBUTTONDOWN,
};
use vstd::prelude::*;

verus! {

/// A selection narrower or lower than this is not searched.
pub const MIN_SELECTION: i32 = 10;

/// The selection of one overlay window.
#[derive(Clone, Copy, Debug, PartialEq, Eq, Structural)]
pub struct OverlayState {
    /// The size of the window.
    pub width: i32,
    pub height: i32,
    /// Where the button went down.
    pub start: Point,
    /// Where the mouse was last seen during the drag.
    pub current: Point,
    pub dragging: bool,
}

/// What happened to an overlay window.
#[derive(Clone, Copy, Debug, PartialEq, Eq, Structural)]
pub enum OverlayEvent {
    Created,
    PaintNeeded,
    Pressed(Point),
    Moved(Point),
    Released(Point),
    Cancelled,
    OtherKey,
    Destroyed,
    Unhandled,
}

/// What the window has to do in answer, in order.
#[derive(Clone, Copy, Debug, PartialEq, Eq, Structural)]
pub enum Effect {
    /// Take over the selection that was handed to the new window.
    AttachState,
    /// Draw the selection.
    Paint,
    /// Have all mouse messages sent here.
    CaptureMouse,
    /// Stop having all mouse messages sent here.
    ReleaseMouse,
    /// Ask for a repaint.
    Invalidate,
    /// Search this part of the screenshot, or nothing.
    Recognize(Option<Rect>),
    /// Destroy the window.
    CloseWindow,
    /// Report what the search gave.
    ReportResult,
    /// Free the bitmaps and the selection.
    FreeState,
    /// Note that no overlay is open any more.
    ClearActive,
    /// Leave the message loop of the overlay.
    PostQuit,
}

/// The part of the screen between two corners, where it is large enough to be
/// searched.
pub open spec fn scan_area(a: Point, b: Point) -> Option<Rect> {
    let r = spanned(a, b);
    if r.right - r.left < MIN_SELECTION || r.bottom - r.top < MIN_SELECTION {
        None
    } else {
        Some(r)
    }
}

impl OverlayState {
    /// Both corners are positions that a mouse message can carry.
    pub open spec fn wf(self) -> bool {
        in_mouse_range(self.start) && in_mouse_range(self.current)
    }

    /// The selection of a new overlay: nothing is dragged yet.
    pub fn new(width: i32, height: i32) -> (state: OverlayState)
        ensures
            state.wf(),
            state == (OverlayState {
                width,
                height,
                start: (Point { x: 0, y: 0 }),
                current: (Point { x: 0, y: 0 }),
                dragging: false,
            }),
    {
        OverlayState {
            width,
            height,
            start: Point { x: 0, y: 0 },
            current: Point { x: 0, y: 0 },
            dragging: false,
        }
    }

    /// The part of the screen to search, if the selection is large enough.
    pub fn scan_area(&self) -> (area: Option<Rect>)
        requires
            self.wf(),
        ensures
            area == scan_area(self.start, self.current),
    {
        let r: Rect = norm_rect(self.start, self.current);
        if r.right - r.left < MIN_SELECTION || r.bottom - r.top < MIN_SELECTION {
            None
        } else {
            Some(r)
        }
    }

    /// Ends a drag, if there is one, and closes the window.
    pub fn cancel(&mut self) -> (effects: Vec<Effect>)
        ensures
            *final(self) == (OverlayState { dragging: false, ..*old(self) }),
            effects@ == cancel_effects(old(self).dragging),
    {
        let mut effects: Vec<Effect> = Vec::new();
        if self.dragging {
            self.dragging = false;
            effects.push(Effect::ReleaseMouse);
        }
        effects.push(Effect::CloseWindow);
        assert(effects@ =~= cancel_effects(old(self).dragging));
        effects
    }
}

/// The rectangle that all monitors together take, in screen coordinates.
#[derive(Clone, Copy, Debug, PartialEq, Eq, Structural)]
pub struct VirtualScreen {
    pub x: i32,
    pub y: i32,
    pub width: i32,
    pub height: i32,
}

/// How an overlay is set up.
#[derive(Clone, Copy, Debug, PartialEq, Eq, Structural)]
pub struct OverlayPlan {
    /// Where on the screen the window lies.
    pub window: VirtualScreen,
    /// The point of the screen that comes to the origin of the screenshot.
    pub source: Point,
    /// The size of the screenshot, of its darkened copy and of the back buffer.
    pub bitmap_width: i32,
    pub bitmap_height: i32,
    /// The selection that the window starts with.
    pub state: OverlayState,
}

/// Plans an overlay over the whole screen.
pub fn create_overlay(screen: VirtualScreen) -> (plan: OverlayPlan)
    ensures
        plan.window == screen,
        plan.source == (Point { x: screen.x, y: screen.y }),
        plan.bitmap_width == screen.width,
        plan.bitmap_height == screen.height,
        plan.state == (OverlayState {
            width: screen.width,
            height: screen.height,
            start: (Point { x: 0, y: 0 }),
            current: (Point { x: 0, y: 0 }),
            dragging: false,
        }),
        plan.state.wf(),
        is_aligned(plan),
{
    OverlayPlan {
        window: screen,
        source: Point { x: screen.x, y: screen.y },
        bitmap_width: screen.width,
        bitmap_height: screen.height,
        state: OverlayState::new(screen.width, screen.height),
    }
}

/// Whether a planned overlay shows each pixel of the screenshot at the point of
/// the screen that it was taken from, and is as large as the screenshot.
pub open spec fn is_aligned(plan: OverlayPlan) -> bool {
    &&& forall|x: int, y: int|
        #![trigger on_screen(plan, x, y)]
        on_screen(plan, x, y) == taken_from(plan, x, y)
    &&& plan.window.width == plan.bitmap_width == plan.state.width
    &&& plan.window.height == plan.bitmap_height == plan.state.height
}

/// The point of the screen on which a point of the window lies.
pub open spec fn on_screen(plan: OverlayPlan, x: int, y: int) -> (int, int) {
    (plan.window.x + x, plan.window.y + y)
}

/// The point of the screen from which a pixel of the screenshot was taken.
pub open spec fn taken_from(plan: OverlayPlan, x: int, y: int) -> (int, int) {
    (plan.source.x + x, plan.source.y + y)
}

/// The effects of giving up a selection.
pub open spec fn cancel_effects(dragging: bool) -> Seq<Effect> {
    if dragging {
        seq![Effect::ReleaseMouse, Effect::CloseWindow]
    } else {
        seq![Effect::CloseWindow]
    }
}

/// The event that a window message stands for.
pub open spec fn event_of(msg: u32, wp: usize, lp: isize) -> OverlayEvent {
    if msg == WM_CREATE {
        OverlayEvent::Created
    } else if msg == WM_PAINT {
        OverlayEvent::PaintNeeded
    } else if msg == WM_LBUTTONDOWN {
        OverlayEvent::Pressed(mouse_point(lp))
    } else if msg == WM_MOUSEMOVE {
        OverlayEvent::Moved(mouse_point(lp))
    } else if msg == WM_LBUTTONUP {
        OverlayEvent::Released(mouse_point(lp))
    } else if msg == WM_RBUTTONDOWN {
        OverlayEvent::Cancelled
    } else if msg == WM_KEYDOWN {
        if wp % 0x1_0000 == VK_ESCAPE {
            OverlayEvent::Cancelled
        } else {
            OverlayEvent::OtherKey
        }
    } else if msg == WM_DESTROY {
        OverlayEvent::Destroyed
    } else {
        OverlayEvent::Unhandled
    }
}

/// Reads the event out of a window message.
pub fn overlay_event(msg: u32, wp: usize, lp: isize) -> (event: OverlayEvent)
    ensures
        event == event_of(msg, wp, lp),
        event_in_range(event),
{
    if msg == WM_CREATE {
        OverlayEvent::Created
    } else if msg == WM_PAINT {
        OverlayEvent::PaintNeeded
    } else if msg == WM_LBUTTONDOWN {
        OverlayEvent::Pressed(mouse_pt(lp))
    } else if msg == WM_MOUSEMOVE {
        OverlayEvent::Moved(mouse_pt(lp))
    } else if msg == WM_LBUTTONUP {
        OverlayEvent::Released(mouse_pt(lp))
    } else if msg == WM_RBUTTONDOWN {
        OverlayEvent::Cancelled
    } else if msg == WM_KEYDOWN {
        let key: u16 = #[verifier::truncate] (wp as u16);
        assert(wp as u16 == wp % 0x1_0000) by (bit_vector);
        if key == VK_ESCAPE {
            OverlayEvent::Cancelled
        } else {
            OverlayEvent::OtherKey
        }
    } else if msg == WM_DESTROY {
        OverlayEvent::Destroyed
    } else {
        OverlayEvent::Unhandled
    }
}

/// Whether the positions in an event are ones that a message can carry.
pub open spec fn event_in_range(event: OverlayEvent) -> bool {
    match event {
        OverlayEvent::Pressed(p) => in_mouse_range(p),
        OverlayEvent::Moved(p) => in_mouse_range(p),
        OverlayEvent::Released(p) => in_mouse_range(p),
        _ => true,
    }
}

/// Whether an event can be handled only by a window that has its selection.
pub open spec fn needs_state(event: OverlayEvent) -> bool {
    event is Pressed || event is Moved || event is Released || event is Cancelled
}

/// The selection after an event.
pub open spec fn next_state(state: Option<OverlayState>, event: OverlayEvent) -> Option<
    OverlayState,
> {
    match (state, event) {
        (Some(s), OverlayEvent::Pressed(p)) => Some(
            OverlayState { start: p, current: p, dragging: true, ..s },
        ),
        (Some(s), OverlayEvent::Moved(p)) => if s.dragging {
            Some(OverlayState { current: p, ..s })
        } else {
            Some(s)
        },
        (Some(s), OverlayEvent::Released(p)) => if s.dragging {
            Some(OverlayState { current: p, dragging: false, ..s })
        } else {
            Some(s)
        },
        (Some(s), OverlayEvent::Cancelled) => Some(OverlayState { dragging: false, ..s }),
        (_, OverlayEvent::Destroyed) => None,
        _ => state,
    }
}

/// The effects of an event; `None` where the window system's default
/// processing is wanted instead.
pub open spec fn effects_of(state: Option<OverlayState>, event: OverlayEvent) -> Option<Seq<Effect>> {
    match event {
        OverlayEvent::Created => Some(seq![Effect::AttachState]),
        OverlayEvent::PaintNeeded => if state is Some {
            Some(seq![Effect::Paint])
        } else {
            None
        },
        OverlayEvent::Pressed(_) => Some(seq![Effect::CaptureMouse]),
        OverlayEvent::Moved(_) => if state->0.dragging {
            Some(seq![Effect::Invalidate])
        } else {
            Some(seq![])
        },
        OverlayEvent::Released(p) => if state->0.dragging {
            Some(
                seq![
                    Effect::ReleaseMouse,
                    Effect::Recognize(scan_area(state->0.start, p)),
                    Effect::CloseWindow,
                    Effect::ReportResult,
                ],
            )
        } else {
            Some(seq![])
        },
        OverlayEvent::Cancelled => Some(cancel_effects(state->0.dragging)),
        OverlayEvent::OtherKey => Some(seq![]),
        OverlayEvent::Destroyed => if state is Some {
            Some(seq![Effect::FreeState, Effect::ClearActive, Effect::PostQuit])
        } else {
            Some(seq![Effect::ClearActive, Effect::PostQuit])
        },
        OverlayEvent::Unhandled => None,
    }
}

/// The effects that an answer holds.
pub open spec fn effects_view(reply: Option<Vec<Effect>>) -> Option<Seq<Effect>> {
    match reply {
        Some(effects) => Some(effects@),
        None => None,
    }
}

/// Whether the selection of a window, if it has one, is well-formed.
pub open spec fn state_wf(state: Option<OverlayState>) -> bool {
    state matches Some(s) ==> s.wf()
}

/// Handles an event of an overlay window.
pub fn handle_event(state: &mut Option<OverlayState>, event: OverlayEvent) -> (reply: Option<
    Vec<Effect>,
>)
    requires
        state_wf(*old(state)),
        event_in_range(event),
        needs_state(event) ==> *old(state) is Some,
    ensures
        *final(state) == next_state(*old(state), event),
        effects_view(reply) == effects_of(*old(state), event),
        state_wf(*final(state)),
{
    let mut effects: Vec<Effect> = Vec::new();
    match event {
        OverlayEvent::Created => {
            effects.push(Effect::AttachState);
        },
        OverlayEvent::PaintNeeded => {
            if state.is_none() {
                return None;
            }
            effects.push(Effect::Paint);
        },
        OverlayEvent::Pressed(p) => {
            if let Some(mut st) = *state {
                st.start = p;
                st.current = p;
                st.dragging = true;
                *state = Some(st);
                effects.push(Effect::CaptureMouse);
            }
        },
        OverlayEvent::Moved(p) => {
            if let Some(mut st) = *state {
                if st.dragging {
                    st.current = p;
                    *state = Some(st);
                    effects.push(Effect::Invalidate);
                }
            }
        },
        OverlayEvent::Released(p) => {
            if let Some(mut st) = *state {
                if st.dragging {
                    st.current = p;
                    st.dragging = false;
                    *state = Some(st);
                    effects.push(Effect::ReleaseMouse);
                    effects.push(Effect::Recognize(st.scan_area()));
                    effects.push(Effect::CloseWindow);
                    effects.push(Effect::ReportResult);
                }
            }
        },
        OverlayEvent::Cancelled => {
            if let Some(mut st) = *state {
                effects = st.cancel();
                *state = Some(st);
            }
        },
        OverlayEvent::OtherKey => {},
        OverlayEvent::Destroyed => {
            if state.is_some() {
                effects.push(Effect::FreeState);
                *state = None;
            }
            effects.push(Effect::ClearActive);
            effects.push(Effect::PostQuit);
        },
        OverlayEvent::Unhandled => {
            return None;
        },
    }
    assert(effects@ =~= effects_of(*old(state), event)->0);
    Some(effects)
}

/// Handles a message of an overlay window.
pub fn overlay_proc(state: &mut Option<OverlayState>, msg: u32, wp: usize, lp: isize) -> (reply:
    Option<Vec<Effect>>)
    requires
        state_wf(*old(state)),
        needs_state(event_of(msg, wp, lp)) ==> *old(state) is Some,
    ensures
        *final(state) == next_state(*old(state), event_of(msg, wp, lp)),
        effects_view(reply) == effects_of(*old(state), event_of(msg, wp, lp)),
        state_wf(*final(state)),
{
    let event: OverlayEvent = overlay_event(msg, wp, lp);
    handle_event(state, event)
}

/// Tells whether an event can be handled only by a window that has its
/// selection.
pub fn event_needs_state(event: OverlayEvent) -> (needed: bool)
    ensures
        needed == needs_state(event),
{
    match event {
        OverlayEvent::Pressed(_) => true,
        OverlayEvent::Moved(_) => true,
        OverlayEvent::Released(_) => true,
        OverlayEvent::Cancelled => true,
        _ => false,
    }
}

/// The selection after a row of events.
pub open spec fn run(state: Option<OverlayState>, events: Seq<OverlayEvent>) -> Option<OverlayState>
    decreases events.len(),
{
    if events.len() == 0 {
        state
    } else {
        next_state(run(state, events.drop_last()), events.last())
    }
}

/// Whether an event leaves a drag going with the corner it started from.
pub open spec fn keeps_drag(event: OverlayEvent) -> bool {
    !(event is Pressed || event is Released || event is Cancelled || event is Destroyed)
}

/// Every row of events from a well-formed selection ends in a well-formed one,
/// or in none.
pub proof fn law_selection_stays_well_formed(state: Option<OverlayState>, events: Seq<OverlayEvent>)
    requires
        state_wf(state),
        forall|i: int| 0 <= i < events.len() ==> event_in_range(#[trigger] events[i]),
    ensures
        state_wf(run(state, events)),
    decreases events.len(),
{
    if events.len() > 0 {
        law_selection_stays_well_formed(state, events.drop_last());
        assert(event_in_range(events[events.len() - 1]));
    }
}

/// Between press and release nothing but the current corner changes.
pub proof fn law_drag_keeps_start(s: OverlayState, events: Seq<OverlayEvent>)
    requires
        s.dragging,
        forall|i: int| 0 <= i < events.len() ==> keeps_drag(#[trigger] events[i]),
    ensures
        run(Some(s), events) matches Some(t) && t == (OverlayState { current: t.current, ..s }),
    decreases events.len(),
{
    if events.len() > 0 {
        law_drag_keeps_start(s, events.drop_last());
        assert(keeps_drag(events[events.len() - 1]));
    }
}

/// A drag searches what lies between the point where the button went down and
/// the point where it went up, whatever the mouse did in between: the mouse is
/// released, the area is searched, the window closes, the result is reported.
pub proof fn law_drag_searches_between_press_and_release(
    s: OverlayState,
    press: Point,
    events: Seq<OverlayEvent>,
    release: Point,
)
    requires
        forall|i: int| 0 <= i < events.len() ==> keeps_drag(#[trigger] events[i]),
    ensures
        effects_of(
            run(next_state(Some(s), OverlayEvent::Pressed(press)), events),
            OverlayEvent::Released(release),
        ) == Some(
            seq![
                Effect::ReleaseMouse,
                Effect::Recognize(scan_area(press, release)),
                Effect::CloseWindow,
                Effect::ReportResult,
            ],
        ),
{
    law_drag_keeps_start(next_state(Some(s), OverlayEvent::Pressed(press))->0, events);
}

/// Moving or releasing the mouse without a drag changes nothing and does
/// nothing.
pub proof fn law_idle_mouse_does_nothing(s: OverlayState, p: Point)
    requires
        !s.dragging,
    ensures
        next_state(Some(s), OverlayEvent::Moved(p)) == Some(s),
        next_state(Some(s), OverlayEvent::Released(p)) == Some(s),
        effects_of(Some(s), OverlayEvent::Moved(p)) == Some(Seq::<Effect>::empty()),
        effects_of(Some(s), OverlayEvent::Released(p)) == Some(Seq::<Effect>::empty()),
{
}

/// A search or a report comes only from releasing the button during a drag: a
/// cancelled selection is neither searched nor reported.
pub proof fn law_only_a_finished_drag_is_searched(
    state: Option<OverlayState>,
    event: OverlayEvent,
    effect: Effect,
)
    requires
        needs_state(event) ==> state is Some,
        effects_of(state, event) matches Some(effects) && effects.contains(effect),
        effect is Recognize || effect is ReportResult,
    ensures
        event is Released,
        state->0.dragging,
{
    let effects = effects_of(state, event)->0;
    let i = effects.index_of(effect);
    assert(effects[i] == effect);
}

/// The mouse is captured exactly by a press, and released exactly where a drag
/// ends while the window keeps its selection.
pub proof fn law_mouse_capture_follows_drag(s: OverlayState, event: OverlayEvent)
    requires
        effects_of(Some(s), event) is Some,
    ensures
        effects_of(Some(s), event)->0.contains(Effect::CaptureMouse) <==> event is Pressed,
        effects_of(Some(s), event)->0.contains(Effect::ReleaseMouse) <==> (s.dragging && next_state(
            Some(s),
            event,
        ) is Some && !next_state(Some(s), event)->0.dragging),
{
    let effects = effects_of(Some(s), event)->0;
    if event is Pressed {
        assert(effects[0] == Effect::CaptureMouse);
    }
    if s.dragging && (event is Released || event is Cancelled) {
        assert(effects[0] == Effect::ReleaseMouse);
    }
}

/// A window that is told to close keeps no drag, and closes only on a finished
/// drag or a cancel.
pub proof fn law_closing_ends_drag(s: OverlayState, event: OverlayEvent)
    requires
        effects_of(Some(s), event) matches Some(effects) && effects.contains(Effect::CloseWindow),
    ensures
        event is Released || event is Cancelled,
        next_state(Some(s), event) matches Some(t) && !t.dragging,
{
}

/// A destroyed overlay has no selection left, notes that it is gone and leaves
/// its message loop, whether it ever had a selection or not.
pub proof fn law_destroyed_overlay_is_inactive(state: Option<OverlayState>)
    ensures
        next_state(state, OverlayEvent::Destroyed) is None,
        effects_of(state, OverlayEvent::Destroyed)->0.contains(Effect::ClearActive),
        effects_of(state, OverlayEvent::Destroyed)->0.last() == Effect::PostQuit,
        effects_of(state, OverlayEvent::Destroyed)->0.contains(Effect::FreeState) <==> state is Some,
{
    let effects = effects_of(state, OverlayEvent::Destroyed)->0;
    assert(effects[effects.len() - 2] == Effect::ClearActive);
    if state is Some {
        assert(effects[0] == Effect::FreeState);
    }
}

/// An area that is searched is at least the minimum in both directions, no
/// larger than mouse positions allow, and has its edges in order.
pub proof fn law_scan_area_bounds(a: Point, b: Point)
    requires
        in_mouse_range(a),
        in_mouse_range(b),
        scan_area(a, b) is Some,
    ensures
        MIN_SELECTION <= scan_area(a, b)->0.right - scan_area(a, b)->0.left <= 0xFFFF,
        MIN_SELECTION <= scan_area(a, b)->0.bottom - scan_area(a, b)->0.top <= 0xFFFF,
{
}

/// Whichever corners of a rectangle a drag goes between, and in whichever
/// direction, the same area is searched: from the smaller to the larger
/// coordinates, if it is at least 10 pixels in each direction. A smaller one is
/// not searched.
pub proof fn law_scan_area(a: Point, b: Point)
    ensures
        scan_area(a, b) is Some <==> (a.x - b.x >= 10 || b.x - a.x >= 10) && (a.y - b.y >= 10 || b.y - a.y
            >= 10),
        scan_area(a, b) matches Some(r) ==> {
            &&& r.left <= a.x <= r.right && r.left <= b.x <= r.right
            &&& r.top <= a.y <= r.bottom && r.top <= b.y <= r.bottom
            &&& (r.left == a.x && r.right == b.x) || (r.left == b.x && r.right == a.x)
            &&& (r.top == a.y && r.bottom == b.y) || (r.top == b.y && r.bottom == a.y)
        },
        scan_area(a, b) == scan_area(b, a),
        scan_area(a, b) == scan_area(Point { x: a.x, y: b.y }, Point { x: b.x, y: a.y }),
{
}

/// Which window message stands for which event: the numbers are those of the
/// window system, and every other number is left to it.
pub proof fn law_events_of_messages(msg: u32, wp: usize, lp: isize)
    ensures
        event_of(msg, wp, lp) is Created <==> msg == 0x0001,
        event_of(msg, wp, lp) is Destroyed <==> msg == 0x0002,
        event_of(msg, wp, lp) is PaintNeeded <==> msg == 0x000F,
        event_of(msg, wp, lp) is Moved <==> msg == 0x0200,
        event_of(msg, wp, lp) is Pressed <==> msg == 0x0201,
        event_of(msg, wp, lp) is Released <==> msg == 0x0202,
        event_of(msg, wp, lp) is Cancelled <==> msg == 0x0204 || (msg == 0x0100 && wp % 0x1_0000 == 27),
        event_of(msg, wp, lp) is OtherKey <==> msg == 0x0100 && wp % 0x1_0000 != 27,
        event_of(msg, wp, lp) matches OverlayEvent::Pressed(p) ==> carries(lp, p),
        event_of(msg, wp, lp) matches OverlayEvent::Moved(p) ==> carries(lp, p),
        event_of(msg, wp, lp) matches OverlayEvent::Released(p) ==> carries(lp, p),
{
    crate::geometry::law_mouse_point_words(lp);
}

/// Whether a message parameter carries a position in its two low words.
pub open spec fn carries(lp: isize, p: Point) -> bool {
    &&& -0x8000 <= p.x < 0x8000 && (lp - p.x) % 0x1_0000 == 0
    &&& -0x8000 <= p.y < 0x8000 && (lp as int / 0x1_0000 - p.y) % 0x1_0000 == 0
}

/// Pressing starts a selection of no extent at the mouse, whether or not one was
/// going on; while it goes on, moving and releasing bring its second corner to
/// the mouse; releasing and cancelling end it. Nothing else changes a selection,
/// and nothing but destroying the window takes it away.
pub proof fn law_selection_follows_mouse(s: OverlayState, event: OverlayEvent)
    ensures
        next_state(Some(s), event) is None <==> event is Destroyed,
        next_state(Some(s), event) matches Some(t) ==> {
            &&& t.width == s.width && t.height == s.height
            &&& t.dragging <==> event is Pressed || (s.dragging && !(event is Released)
                && !(event is Cancelled))
            &&& t.start == (match event {
                OverlayEvent::Pressed(p) => p,
                _ => s.start,
            })
            &&& event matches OverlayEvent::Pressed(p) ==> t.current == p
            &&& event matches OverlayEvent::Moved(p) ==> t.current == if s.dragging {
                p
            } else {
                s.current
            }
            &&& event matches OverlayEvent::Released(p) ==> t.current == if s.dragging {
                p
            } else {
                s.current
            }
            &&& !(event is Pressed || event is Moved || event is Released) ==> t.current == s.current
        },
        next_state(None, event) is None,
{
}

/// Every effect has its one cause: what a window does follows from what happened
/// and from whether a drag was going on, and is done once.
pub proof fn law_effects_have_causes(s: OverlayState, event: OverlayEvent, effect: Effect)
    ensures
        effects_of(Some(s), event) is None <==> event is Unhandled,
        effects_of(Some(s), event) matches Some(effects) ==> {
            let drag_ends = s.dragging && event is Released;
            &&& effects.no_duplicates()
            &&& effects.contains(effect) <==> match effect {
                Effect::AttachState => event is Created,
                Effect::Paint => event is PaintNeeded,
                Effect::CaptureMouse => event is Pressed,
                Effect::ReleaseMouse => s.dragging && (event is Released || event is Cancelled),
                Effect::Invalidate => s.dragging && event is Moved,
                Effect::Recognize(area) => drag_ends && area == scan_area(
                    s.start,
                    event->Released_0,
                ),
                Effect::CloseWindow => drag_ends || event is Cancelled,
                Effect::ReportResult => drag_ends,
                Effect::FreeState => event is Destroyed,
                Effect::ClearActive => event is Destroyed,
                Effect::PostQuit => event is Destroyed,
            }
        },
{
    if let Some(effects) = effects_of(Some(s), event) {
        if effects.len() > 0 {
            assert(effects.contains(effects[0]));
        }
        if effects.len() > 1 {
            assert(effects.contains(effects[1]));
        }
        if effects.len() > 2 {
            assert(effects.contains(effects[2]));
        }
        if effects.len() > 3 {
            assert(effects.contains(effects[3]));
        }
    }
}

/// What has to come before what: the mouse is let go before the search, the
/// search is made before the window closes, and its result is reported after
/// that; a selection is freed before it is noted that no overlay is open, and
/// only then the message loop is left.
pub proof fn law_effects_are_in_order(s: OverlayState, event: OverlayEvent, i: int, j: int)
    requires
        effects_of(Some(s), event) matches Some(effects) && 0 <= i < j < effects.len(),
    ensures
        ({
            let first = effects_of(Some(s), event)->0[i];
            let later = effects_of(Some(s), event)->0[j];
            ||| first is ReleaseMouse && (later is Recognize || later is CloseWindow || later is ReportResult)
            ||| first is Recognize && (later is CloseWindow || later is ReportResult)
            ||| first is CloseWindow && later is ReportResult
            ||| first is FreeState && (later is ClearActive || later is PostQuit)
            ||| first is ClearActive && later is PostQuit
        }),
{
}

/// A window that lost or never had its selection paints nothing and frees
/// nothing, but is still attached, and still ends its message loop.
pub proof fn law_window_without_selection(event: OverlayEvent)
    requires
        !needs_state(event),
    ensures
        effects_of(None, event) is None <==> event is Unhandled || event is PaintNeeded,
        event is Created ==> effects_of(None, event) == Some(seq![Effect::AttachState]),
        event is OtherKey ==> effects_of(None, event) == Some(Seq::<Effect>::empty()),
        event is Destroyed ==> effects_of(None, event) == Some(
            seq![Effect::ClearActive, Effect::PostQuit],
        ),
{
}

/// A window without its selection cannot answer the mouse or a cancel, and can
/// answer everything else.
pub proof fn law_needs_state(event: OverlayEvent)
    ensures
        !needs_state(event) <==> event is Created || event is PaintNeeded || event is OtherKey
            || event is Destroyed || event is Unhandled,
{
}

/// An answer is seen as the effects that it holds, in order.
pub proof fn law_effects_view(effects: Vec<Effect>)
    ensures
        effects_view(Some(effects)) == Some(effects@),
        effects_view(None) == None::<Seq<Effect>>,
{
}

/// From press to release, a drag in any direction searches the rectangle between
/// the two points exactly if it is at least 10 pixels wide and high, wherever
/// the mouse went in between; a smaller one is closed and reported all the same.
pub proof fn law_drag_in_any_direction(
    s: OverlayState,
    press: Point,
    events: Seq<OverlayEvent>,
    release: Point,
)
    requires
        forall|i: int| 0 <= i < events.len() ==> keeps_drag(#[trigger] events[i]),
    ensures
        ({
            let before = run(next_state(Some(s), OverlayEvent::Pressed(press)), events);
            let effects = effects_of(before, OverlayEvent::Released(release))->0;
            let wide = press.x - release.x >= 10 || release.x - press.x >= 10;
            let high = press.y - release.y >= 10 || release.y - press.y >= 10;
            &&& effects.len() == 4
            &&& effects[1] is Recognize && (effects[1]->Recognize_0 is Some <==> wide && high)
            &&& effects[1]->Recognize_0 matches Some(r) ==> {
                &&& r.right - r.left == if press.x < release.x {
                    release.x - press.x
                } else {
                    press.x - release.x
                }
                &&& r.bottom - r.top == if press.y < release.y {
                    release.y - press.y
                } else {
                    press.y - release.y
                }
                &&& r.left == press.x || r.left == release.x
                &&& r.top == press.y || r.top == release.y
            }
        }),
{
    law_drag_searches_between_press_and_release(s, press, events, release);
    law_scan_area(press, release);
}

}
