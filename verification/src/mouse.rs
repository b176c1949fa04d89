//! Event-driven mouse trigger input.
//!
//! `MouseState` owns two one-shot deadlines. The window that receives the mouse
//! events arms a timer for each of them and asks for what is due when a timer
//! fires. Times are nanoseconds of a monotonic clock.

use crate::geometry::{
    clamp_i32, max_i32, max_int, min_i32, min_int, saturating_add_i32, saturating_sub_i32,
    ScreenPoint, ScreenRect,
};
use std::collections::VecDeque;
use vstd::prelude::*;

verus! {

/// How long after a button release its selection is due.
pub const SELECTION_DELAY: u64 = 80_000_000;

/// How long the pointer rests before it counts as hovering.
pub const HOVER_DELAY: u64 = 500_000_000;

pub const HOVER_MOVE_THRESHOLD: i32 = 4;

pub const DOUBLE_CLICK_HALF_SIZE: i32 = 8;

pub const DOUBLE_CLICK_DELAY: u64 = 500_000_000;

pub const WM_MOUSEMOVE: u32 = 0x0200;

pub const WM_LBUTTONDOWN: u32 = 0x0201;

pub const WM_LBUTTONUP: u32 = 0x0202;

pub const WM_RBUTTONDOWN: u32 = 0x0204;

pub const WM_MBUTTONDOWN: u32 = 0x0207;

pub const WM_XBUTTONDOWN: u32 = 0x020b;

/// The private message that carries a mouse event to the resident window.
pub const WM_MOUSE_HOOK: u32 = 0x8014;

pub const TIMER_SELECTION: usize = 0x7301;

pub const TIMER_HOVER: usize = 0x7302;

/// A mouse event as the low-level hook saw it.
#[derive(Clone, Copy, Debug, PartialEq, Eq, Structural)]
pub struct RawMouseMessage {
    pub kind: u32,
    pub x: i32,
    pub y: i32,
}

/// The message is a button press.
pub open spec fn is_button_down(kind: u32) -> bool {
    kind == WM_LBUTTONDOWN || kind == WM_RBUTTONDOWN || kind == WM_MBUTTONDOWN || kind
        == WM_XBUTTONDOWN
}

/// The hook forwards movement, the left button's release and every button press.
pub fn should_forward_hook_message(kind: u32) -> (forward: bool)
    ensures
        forward <==> kind == WM_MOUSEMOVE || kind == WM_LBUTTONUP || is_button_down(kind),
{
    kind == WM_MOUSEMOVE || kind == WM_LBUTTONDOWN || kind == WM_LBUTTONUP || kind
        == WM_RBUTTONDOWN || kind == WM_MBUTTONDOWN || kind == WM_XBUTTONDOWN
}

/// A mouse gesture that asks for a translation.
#[derive(Clone, Copy, Debug, PartialEq, Eq, Structural)]
pub enum MouseTrigger {
    Selection {
        pointer: ScreenPoint,
        process_id: u32,
        source_root_window: isize,
        rect: Option<ScreenRect>,
    },
    Hover { pointer: ScreenPoint, process_id: u32, source_root_window: isize },
}

/// A left-button release that waits for its selection to settle.
#[derive(Clone, Copy, Debug, PartialEq, Eq, Structural)]
pub struct Release {
    pub pointer: ScreenPoint,
    pub process_id: u32,
    pub source_root_window: isize,
    pub rect: Option<ScreenRect>,
}

/// A pointer position with the process and the root window below it.
pub type Place = (ScreenPoint, u32, isize);

/// What a `MouseState` holds.
pub struct MouseModel {
    pub left_down: Option<Place>,
    pub releases: Seq<Release>,
    pub selection_deadline: Option<u64>,
    pub hover_enabled: bool,
    pub hover_anchor: Option<Place>,
    pub hover_candidate: Option<Place>,
    pub hover_deadline: Option<u64>,
    pub hover_generation: u64,
    pub last_click: Option<(ScreenPoint, u64)>,
}

impl MouseModel {
    /// A hover is being timed, or has been announced from a point that the
    /// pointer has not left.
    pub open spec fn hover_pending(self) -> bool {
        self.hover_deadline is Some || self.hover_anchor is Some || self.hover_candidate is Some
    }

    /// The model without its pending hover, which a new generation disowns.
    pub open spec fn without_hover(self) -> MouseModel {
        MouseModel {
            hover_anchor: None,
            hover_candidate: None,
            hover_deadline: None,
            hover_generation: if self.hover_pending() {
                next_generation(self.hover_generation)
            } else {
                self.hover_generation
            },
            ..self
        }
    }

    /// Hover switched on or off.
    pub open spec fn with_hover(self, enabled: bool) -> MouseModel {
        MouseModel {
            hover_enabled: enabled,
            hover_anchor: None,
            hover_candidate: None,
            hover_deadline: None,
            hover_generation: if enabled != self.hover_enabled {
                next_generation(self.hover_generation)
            } else {
                self.hover_generation
            },
            ..self
        }
    }

    /// The left button went down.
    pub open spec fn after_left_down(self, down: Place) -> MouseModel {
        MouseModel { left_down: Some(down), ..self.without_hover() }
    }

    /// The left button came up. A press that was not seen counts as a press at
    /// the same place; a drag ends a series of clicks.
    pub open spec fn after_left_up(self, up: Place, now: u64) -> MouseModel {
        let down = self.left_down.unwrap_or(up);
        let double_clicked = is_double_click(self.last_click, up.0, now);
        MouseModel {
            left_down: None,
            releases: self.releases.push(release_of(down, up, double_clicked)),
            selection_deadline: Some((now + SELECTION_DELAY) as u64),
            last_click: if down.0 != up.0 {
                None
            } else {
                Some((up.0, now))
            },
            ..self.without_hover()
        }
    }

    /// The pointer moved. A dwell starts where none runs, and anew where the
    /// pointer left the anchor or came over another window; any other movement
    /// is jitter.
    pub open spec fn after_move(self, place: Place, now: u64) -> MouseModel {
        let restarted = self.hover_anchor matches Some(anchor) && (anchor.1 != place.1 || anchor.2
            != place.2 || moved_away(anchor.0, place.0));
        if self.hover_enabled && self.left_down is None && (self.hover_anchor is None
            || restarted) {
            MouseModel {
                hover_anchor: Some(place),
                hover_candidate: Some(place),
                hover_deadline: Some((now + HOVER_DELAY) as u64),
                hover_generation: if restarted {
                    next_generation(self.hover_generation)
                } else {
                    self.hover_generation
                },
                ..self
            }
        } else {
            self
        }
    }

    /// The selection timer runs exactly while releases wait. Hover is timed
    /// only while it is enabled and the left button is up, always from its
    /// anchor.
    pub open spec fn wf(self) -> bool {
        &&& self.selection_deadline is Some <==> self.releases.len() > 0
        &&& self.hover_pending() ==> self.hover_enabled && self.left_down is None
        &&& self.hover_deadline is Some <==> self.hover_candidate is Some
        &&& self.hover_candidate is Some ==> self.hover_anchor == self.hover_candidate
    }
}

/// Nothing pressed, nothing waiting, hover off.
pub open spec fn idle_mouse() -> MouseModel {
    MouseModel {
        left_down: None,
        releases: Seq::empty(),
        selection_deadline: None,
        hover_enabled: false,
        hover_anchor: None,
        hover_candidate: None,
        hover_deadline: None,
        hover_generation: 0,
        last_click: None,
    }
}

pub open spec fn next_generation(generation: u64) -> u64 {
    if generation == u64::MAX {
        0
    } else {
        (generation + 1) as u64
    }
}

/// Both coordinates of the two points are within the movement threshold.
pub open spec fn same_click_spot(a: ScreenPoint, b: ScreenPoint) -> bool {
    -HOVER_MOVE_THRESHOLD <= a.x - b.x <= HOVER_MOVE_THRESHOLD && -HOVER_MOVE_THRESHOLD <= a.y
        - b.y <= HOVER_MOVE_THRESHOLD
}

/// The straight distance between the points exceeds the movement threshold.
pub open spec fn moved_away(from: ScreenPoint, to: ScreenPoint) -> bool {
    (to.x - from.x) * (to.x - from.x) + (to.y - from.y) * (to.y - from.y) > HOVER_MOVE_THRESHOLD
        * HOVER_MOVE_THRESHOLD
}

/// A release at `at` continues the click recorded in `last_click`.
pub open spec fn is_double_click(
    last_click: Option<(ScreenPoint, u64)>,
    at: ScreenPoint,
    now: u64,
) -> bool {
    last_click matches Some((previous, when)) && now - when <= DOUBLE_CLICK_DELAY
        && same_click_spot(previous, at)
}

/// The release of the left button at `up`, with the place where it went down.
///
/// A drag belongs to the process and window of the press, unless they are
/// unknown; a click prefers those of the release.
pub open spec fn release_of(down: Place, up: Place, double_clicked: bool) -> Release {
    let dragged = down.0 != up.0;
    Release {
        pointer: up.0,
        process_id: if dragged && down.1 != 0 || up.1 == 0 {
            down.1
        } else {
            up.1
        },
        source_root_window: if dragged && down.2 != 0 || up.2 == 0 {
            down.2
        } else {
            up.2
        },
        rect: if dragged || double_clicked {
            Some(rect_spanned(down.0, up.0))
        } else {
            None
        },
    }
}

/// The lower edge of the span of two coordinates; equal ones are widened.
pub open spec fn span_low(a: i32, b: i32) -> i32 {
    if a == b {
        clamp_i32(a - DOUBLE_CLICK_HALF_SIZE) as i32
    } else {
        min_int(a as int, b as int) as i32
    }
}

/// The upper edge of the span of two coordinates; equal ones are widened.
pub open spec fn span_high(a: i32, b: i32) -> i32 {
    if a == b {
        clamp_i32(a + DOUBLE_CLICK_HALF_SIZE) as i32
    } else {
        max_int(a as int, b as int) as i32
    }
}

pub open spec fn rect_spanned(start: ScreenPoint, end: ScreenPoint) -> ScreenRect {
    ScreenRect {
        left: span_low(start.x, end.x),
        top: span_low(start.y, end.y),
        right: span_high(start.x, end.x),
        bottom: span_high(start.y, end.y),
    }
}

/// The rectangle that a drag from `start` to `end` selects.
pub fn selection_rect(start: ScreenPoint, end: ScreenPoint) -> (rect: ScreenRect)
    ensures
        rect == rect_spanned(start, end),
{
    let mut left: i32 = min_i32(start.x, end.x);
    let mut right: i32 = max_i32(start.x, end.x);
    let mut top: i32 = min_i32(start.y, end.y);
    let mut bottom: i32 = max_i32(start.y, end.y);
    if left == right {
        left = saturating_sub_i32(left, DOUBLE_CLICK_HALF_SIZE);
        right = saturating_add_i32(right, DOUBLE_CLICK_HALF_SIZE);
    }
    if top == bottom {
        top = saturating_sub_i32(top, DOUBLE_CLICK_HALF_SIZE);
        bottom = saturating_add_i32(bottom, DOUBLE_CLICK_HALF_SIZE);
    }
    ScreenRect::new(left, top, right, bottom)
}

/// A selection rectangle is never empty, does not depend on the direction of
/// the drag, and both ends of the drag lie within its edges.
pub proof fn lemma_selection_rect_is_normalized(start: ScreenPoint, end: ScreenPoint)
    ensures
        rect_spanned(start, end).nonempty(),
        rect_spanned(start, end) == rect_spanned(end, start),
        rect_spanned(start, end).left <= start.x <= rect_spanned(start, end).right,
        rect_spanned(start, end).top <= start.y <= rect_spanned(start, end).bottom,
        rect_spanned(start, end).left <= end.x <= rect_spanned(start, end).right,
        rect_spanned(start, end).top <= end.y <= rect_spanned(start, end).bottom,
{
}

fn squared_distance_exceeds_threshold(from: ScreenPoint, to: ScreenPoint) -> (exceeds: bool)
    ensures
        exceeds == moved_away(from, to),
{
    let dx: i128 = to.x as i128 - from.x as i128;
    let dy: i128 = to.y as i128 - from.y as i128;
    assert(0 <= dx * dx <= 0x1_0000_0000 * 0x1_0000_0000) by (nonlinear_arith)
        requires
            -0x1_0000_0000 <= dx <= 0x1_0000_0000,
    ;
    assert(0 <= dy * dy <= 0x1_0000_0000 * 0x1_0000_0000) by (nonlinear_arith)
        requires
            -0x1_0000_0000 <= dy <= 0x1_0000_0000,
    ;
    let threshold: i128 = HOVER_MOVE_THRESHOLD as i128;
    dx * dx + dy * dy > threshold * threshold
}

fn click_repeated(last_click: Option<(ScreenPoint, u64)>, at: ScreenPoint, now: u64) -> (repeated:
    bool)
    ensures
        repeated == is_double_click(last_click, at, now),
{
    match last_click {
        Some((previous, when)) => {
            let elapsed: u64 = now.saturating_sub(when);
            let dx: i64 = previous.x as i64 - at.x as i64;
            let dy: i64 = previous.y as i64 - at.y as i64;
            let threshold: i64 = HOVER_MOVE_THRESHOLD as i64;
            elapsed <= DOUBLE_CLICK_DELAY && -threshold <= dx && dx <= threshold && -threshold <= dy
                && dy <= threshold
        },
        None => false,
    }
}

/// State for left-button selection and session-only hover mode.
#[derive(Debug)]
pub struct MouseState {
    left_down: Option<Place>,
    releases: VecDeque<Release>,
    selection_deadline: Option<u64>,
    hover_enabled: bool,
    hover_anchor: Option<Place>,
    hover_candidate: Option<Place>,
    hover_deadline: Option<u64>,
    hover_generation: u64,
    last_click: Option<(ScreenPoint, u64)>,
}

impl View for MouseState {
    type V = MouseModel;

    closed spec fn view(&self) -> MouseModel {
        MouseModel {
            left_down: self.left_down,
            releases: self.releases@,
            selection_deadline: self.selection_deadline,
            hover_enabled: self.hover_enabled,
            hover_anchor: self.hover_anchor,
            hover_candidate: self.hover_candidate,
            hover_deadline: self.hover_deadline,
            hover_generation: self.hover_generation,
            last_click: self.last_click,
        }
    }
}

impl MouseState {
    /// Hover is not persisted: a new state starts with it off.
    pub fn new() -> (state: MouseState)
        ensures
            state@ == idle_mouse(),
            state@.wf(),
    {
        MouseState {
            left_down: None,
            releases: VecDeque::new(),
            selection_deadline: None,
            hover_enabled: false,
            hover_anchor: None,
            hover_candidate: None,
            hover_deadline: None,
            hover_generation: 0,
            last_click: None,
        }
    }

    pub fn hover_enabled(&self) -> (enabled: bool)
        ensures
            enabled == self@.hover_enabled,
    {
        self.hover_enabled
    }

    /// A token that changes whenever an announced hover no longer holds.
    pub fn hover_generation(&self) -> (generation: u64)
        ensures
            generation == self@.hover_generation,
    {
        self.hover_generation
    }

    pub fn selection_deadline(&self) -> (deadline: Option<u64>)
        ensures
            deadline == self@.selection_deadline,
    {
        self.selection_deadline
    }

    pub fn hover_deadline(&self) -> (deadline: Option<u64>)
        ensures
            deadline == self@.hover_deadline,
    {
        self.hover_deadline
    }

    /// Drops the pending hover.
    pub fn cancel_hover_candidate(&mut self)
        requires
            old(self)@.wf(),
        ensures
            final(self)@ == old(self)@.without_hover(),
            final(self)@.wf(),
    {
        self.invalidate_hover();
        self.hover_deadline = None;
        self.hover_anchor = None;
        self.hover_candidate = None;
    }

    fn invalidate_hover(&mut self)
        ensures
            final(self)@ == (MouseModel {
                hover_generation: old(self)@.without_hover().hover_generation,
                ..old(self)@
            }),
    {
        if self.hover_deadline.is_some() || self.hover_anchor.is_some()
            || self.hover_candidate.is_some() {
            self.hover_generation = self.hover_generation.wrapping_add(1);
        }
    }

    /// Turns hover on or off. The next movement starts the first dwell.
    pub fn set_hover_enabled(&mut self, enabled: bool, now: u64)
        requires
            old(self)@.wf(),
        ensures
            final(self)@ == old(self)@.with_hover(enabled),
            final(self)@.wf(),
    {
        if self.hover_enabled != enabled {
            self.hover_generation = self.hover_generation.wrapping_add(1);
        }
        self.hover_enabled = enabled;
        self.hover_deadline = None;
        self.hover_anchor = None;
        self.hover_candidate = None;
    }

    pub fn on_left_down(
        &mut self,
        point: ScreenPoint,
        process_id: u32,
        source_root_window: isize,
        now: u64,
    )
        requires
            old(self)@.wf(),
        ensures
            final(self)@ == old(self)@.after_left_down((point, process_id, source_root_window)),
            final(self)@.wf(),
    {
        self.left_down = Some((point, process_id, source_root_window));
        self.invalidate_hover();
        self.hover_deadline = None;
        self.hover_anchor = None;
        self.hover_candidate = None;
    }

    /// Queues the release. A press that was not seen counts as a press at the
    /// same place; a drag ends a series of clicks.
    pub fn on_left_up(
        &mut self,
        point: ScreenPoint,
        process_id: u32,
        source_root_window: isize,
        now: u64,
    )
        requires
            old(self)@.wf(),
            now + SELECTION_DELAY <= u64::MAX,
        ensures
            final(self)@ == old(self)@.after_left_up((point, process_id, source_root_window), now),
            final(self)@.wf(),
    {
        let (down, down_pid, down_root) = match self.left_down.take() {
            Some(place) => place,
            None => (point, process_id, source_root_window),
        };
        let dragged: bool = down != point;
        let pid: u32 = if dragged && down_pid != 0 {
            down_pid
        } else if process_id != 0 {
            process_id
        } else {
            down_pid
        };
        let root: isize = if dragged && down_root != 0 {
            down_root
        } else if source_root_window != 0 {
            source_root_window
        } else {
            down_root
        };
        let double_clicked: bool = click_repeated(self.last_click, point, now);
        let rect: Option<ScreenRect> = if dragged || double_clicked {
            Some(selection_rect(down, point))
        } else {
            None
        };
        self.last_click = if dragged {
            None
        } else {
            Some((point, now))
        };
        self.releases.push_back(
            Release { pointer: point, process_id: pid, source_root_window: root, rect },
        );
        self.selection_deadline = Some(now + SELECTION_DELAY);
        self.invalidate_hover();
        self.hover_deadline = None;
        self.hover_anchor = None;
        self.hover_candidate = None;
    }

    /// Starts a dwell where none runs, and anew where the pointer left the
    /// anchor or came over another window. Any other movement is jitter.
    pub fn on_move(
        &mut self,
        point: ScreenPoint,
        process_id: u32,
        source_root_window: isize,
        now: u64,
    )
        requires
            old(self)@.wf(),
            now + HOVER_DELAY <= u64::MAX,
        ensures
            final(self)@ == old(self)@.after_move((point, process_id, source_root_window), now),
            final(self)@.wf(),
    {
        if !self.hover_enabled || self.left_down.is_some() {
            return;
        }
        let restarted: bool = match self.hover_anchor {
            Some((anchor, anchor_process, anchor_root)) => anchor_process != process_id
                || anchor_root != source_root_window || squared_distance_exceeds_threshold(
                anchor,
                point,
            ),
            None => false,
        };
        if self.hover_anchor.is_none() || restarted {
            if restarted {
                self.hover_generation = self.hover_generation.wrapping_add(1);
            }
            self.hover_anchor = Some((point, process_id, source_root_window));
            self.hover_candidate = Some((point, process_id, source_root_window));
            self.hover_deadline = Some(now + HOVER_DELAY);
        }
    }

    /// Takes what has expired: the oldest release, then the hover. A release
    /// that still waits gets a new deadline.
    pub fn take_due(&mut self, now: u64) -> (events: Vec<MouseTrigger>)
        requires
            old(self)@.wf(),
            now + SELECTION_DELAY <= u64::MAX,
        ensures
            events@ == due_events(old(self)@, now),
            final(self)@ == state_after_due(old(self)@, now),
            final(self)@.wf(),
    {
        let mut events: Vec<MouseTrigger> = Vec::new();
        let selection_due: bool = match self.selection_deadline {
            Some(due) => due <= now,
            None => false,
        };
        if selection_due {
            self.selection_deadline = None;
            if let Some(release) = self.releases.pop_front() {
                events.push(
                    MouseTrigger::Selection {
                        pointer: release.pointer,
                        process_id: release.process_id,
                        source_root_window: release.source_root_window,
                        rect: release.rect,
                    },
                );
            }
            if self.releases.len() > 0 {
                self.selection_deadline = Some(now + SELECTION_DELAY);
            }
        }
        let hover_due: bool = match self.hover_deadline {
            Some(due) => due <= now,
            None => false,
        };
        if hover_due {
            self.hover_deadline = None;
            if let Some((pointer, process_id, source_root_window)) = self.hover_candidate.take() {
                events.push(MouseTrigger::Hover { pointer, process_id, source_root_window });
            }
        }
        proof {
            assert(events@ =~= due_events(old(self)@, now));
            assert(self@.releases =~= state_after_due(old(self)@, now).releases);
        }
        events
    }
}

pub open spec fn expired(deadline: Option<u64>, now: u64) -> bool {
    deadline matches Some(due) && due <= now
}

/// The trigger that a release stands for.
pub open spec fn selection_trigger(release: Release) -> MouseTrigger {
    MouseTrigger::Selection {
        pointer: release.pointer,
        process_id: release.process_id,
        source_root_window: release.source_root_window,
        rect: release.rect,
    }
}

/// What is due at `now`.
pub open spec fn due_events(state: MouseModel, now: u64) -> Seq<MouseTrigger> {
    let selection = if expired(state.selection_deadline, now) {
        seq![selection_trigger(state.releases[0])]
    } else {
        Seq::empty()
    };
    let hover = if expired(state.hover_deadline, now) {
        let place = state.hover_candidate.unwrap();
        seq![
            MouseTrigger::Hover {
                pointer: place.0,
                process_id: place.1,
                source_root_window: place.2,
            },
        ]
    } else {
        Seq::empty()
    };
    selection + hover
}

/// The state once everything due at `now` has been taken.
pub open spec fn state_after_due(state: MouseModel, now: u64) -> MouseModel {
    let selection_due = expired(state.selection_deadline, now);
    let hover_due = expired(state.hover_deadline, now);
    MouseModel {
        releases: if selection_due {
            state.releases.drop_first()
        } else {
            state.releases
        },
        selection_deadline: if !selection_due {
            state.selection_deadline
        } else if state.releases.len() > 1 {
            Some((now + SELECTION_DELAY) as u64)
        } else {
            None
        },
        hover_candidate: if hover_due {
            None
        } else {
            state.hover_candidate
        },
        hover_deadline: if hover_due {
            None
        } else {
            state.hover_deadline
        },
        ..state
    }
}

/// Only timers that have expired emit anything: before both deadlines nothing
/// is due and nothing changes.
pub proof fn lemma_nothing_is_due_before_its_deadline(state: MouseModel, now: u64)
    requires
        !expired(state.selection_deadline, now),
        !expired(state.hover_deadline, now),
    ensures
        due_events(state, now) == Seq::<MouseTrigger>::empty(),
        state_after_due(state, now) == state,
{
    assert(due_events(state, now) =~= Seq::<MouseTrigger>::empty());
}

/// While hover is off no hover is timed and none is ever due.
pub proof fn lemma_disabled_hover_never_triggers(state: MouseModel, now: u64)
    requires
        state.wf(),
        !state.hover_enabled,
    ensures
        state.hover_deadline is None,
        forall|i: int| 0 <= i < due_events(state, now).len() ==> due_events(state, now)[i] is Selection,
{
}

/// Hover that is off stays untimed, whatever the mouse does.
pub proof fn lemma_disabled_hover_ignores_the_mouse(state: MouseModel, place: Place, now: u64)
    requires
        state.wf(),
        !state.hover_enabled,
    ensures
        !state.after_move(place, now).hover_pending(),
        !state.after_left_down(place).hover_pending(),
        !state.after_left_up(place, now).hover_pending(),
        !idle_mouse().hover_enabled,
{
}

/// A button press or release drops a pending hover and disowns it by a new
/// generation.
pub proof fn lemma_buttons_cancel_a_pending_hover(state: MouseModel, place: Place, now: u64)
    requires
        state.hover_pending(),
    ensures
        !state.after_left_down(place).hover_pending(),
        !state.after_left_up(place, now).hover_pending(),
        state.after_left_down(place).hover_generation != state.hover_generation,
        state.after_left_up(place, now).hover_generation != state.hover_generation,
        state.without_hover().hover_generation != state.hover_generation,
{
}

/// Movement within the threshold over the same window changes nothing: neither
/// the deadline nor the candidate.
pub proof fn lemma_jitter_changes_nothing(state: MouseModel, place: Place, now: u64)
    requires
        state.hover_anchor matches Some(anchor) && anchor.1 == place.1 && anchor.2 == place.2
            && !moved_away(anchor.0, place.0),
    ensures
        state.after_move(place, now) == state,
{
}

/// Releases come out in the order in which they went in: one taken now leaves
/// the rest in their order, and a later release queues behind them.
pub proof fn lemma_releases_are_first_in_first_out(
    state: MouseModel,
    later: Release,
    now: u64,
)
    requires
        state.wf(),
        expired(state.selection_deadline, now),
    ensures
        due_events(state, now)[0] == selection_trigger(state.releases.first()),
        state_after_due(state, now).releases == state.releases.drop_first(),
        state.releases.push(later).drop_first() == state.releases.drop_first().push(later),
{
    assert(state.releases.push(later).drop_first() =~= state.releases.drop_first().push(later));
}

/// Two releases that wait together come out one per expiry, in their order, and
/// none is lost: the first at any time `t` when both have settled, the second a
/// whole delay later, and nothing in between.
pub proof fn lemma_waiting_releases_come_one_per_expiry(
    first: Place,
    second: Place,
    first_at: u64,
    second_at: u64,
    t: u64,
    early: u64,
)
    requires
        first_at <= second_at,
        second_at + SELECTION_DELAY <= t,
        t + SELECTION_DELAY <= u64::MAX,
        early < t + SELECTION_DELAY,
    ensures
        ({
            let once = idle_mouse().after_left_up(first, first_at);
            let waiting = once.after_left_up(second, second_at);
            let repeated = is_double_click(once.last_click, second.0, second_at);
            let due = (t + SELECTION_DELAY) as u64;
            let left = state_after_due(waiting, t);
            &&& due_events(waiting, t) == seq![selection_trigger(release_of(first, first, false))]
            &&& left.selection_deadline == Some(due)
            &&& due_events(left, early) == Seq::<MouseTrigger>::empty()
            &&& state_after_due(left, early) == left
            &&& due_events(left, due) == seq![
                selection_trigger(release_of(second, second, repeated)),
            ]
            &&& state_after_due(left, due).selection_deadline is None
            &&& state_after_due(left, due).releases == Seq::<Release>::empty()
        }),
{
    let once = idle_mouse().after_left_up(first, first_at);
    let waiting = once.after_left_up(second, second_at);
    let repeated = is_double_click(once.last_click, second.0, second_at);
    let due = (t + SELECTION_DELAY) as u64;
    let left = state_after_due(waiting, t);
    assert(waiting.releases =~= seq![
        release_of(first, first, false),
        release_of(second, second, repeated),
    ]);
    assert(left.releases =~= seq![release_of(second, second, repeated)]);
    assert(due_events(waiting, t) =~= seq![selection_trigger(release_of(first, first, false))]);
    assert(due_events(left, due) =~= seq![selection_trigger(release_of(second, second, repeated))]);
    assert(state_after_due(left, due).releases =~= Seq::<Release>::empty());
    lemma_nothing_is_due_before_its_deadline(left, early);
}

/// While a dwell is anchored, a movement over the same window within the
/// threshold changes nothing. Any other starts the dwell anew: a new generation
/// disowns the old one, the deadline is a whole delay away, and at the deadline
/// the hover is at the new place.
pub proof fn lemma_movement_restarts_the_dwell(state: MouseModel, place: Place, now: u64)
    requires
        state.wf(),
        state.hover_enabled,
        state.left_down is None,
        state.hover_anchor is Some,
        now + HOVER_DELAY <= u64::MAX,
    ensures
        ({
            let anchor = state.hover_anchor.unwrap();
            let after = state.after_move(place, now);
            let due = (now + HOVER_DELAY) as u64;
            if anchor.1 == place.1 && anchor.2 == place.2 && !moved_away(anchor.0, place.0) {
                after == state
            } else {
                &&& after.hover_anchor == Some(place)
                &&& after.hover_generation == next_generation(state.hover_generation)
                &&& after.hover_deadline == Some(due)
                &&& due_events(after, due).contains(
                    MouseTrigger::Hover {
                        pointer: place.0,
                        process_id: place.1,
                        source_root_window: place.2,
                    },
                )
            }
        }),
{
    let after = state.after_move(place, now);
    let events = due_events(after, (now + HOVER_DELAY) as u64);
    if after != state {
        assert(events[events.len() - 1] is Hover);
    }
}

/// The difference of two coordinates is at most four pixels.
pub open spec fn within_four(a: i32, b: i32) -> bool {
    a - b <= 4 && b - a <= 4
}

/// A click, which is a release where the button went down, selects something
/// exactly where the click before it was at most half a second earlier and at
/// most four pixels away in each direction; a drag always does.
pub proof fn lemma_only_a_prompt_second_click_selects(
    state: MouseModel,
    up: Place,
    now: u64,
)
    requires
        state.wf(),
    ensures
        ({
            let release = state.after_left_up(up, now).releases.last();
            let dragged = state.left_down matches Some(down) && down.0 != up.0;
            &&& release.pointer == up.0
            &&& dragged ==> release.rect is Some
            &&& !dragged ==> (release.rect is Some <==> (state.last_click matches Some(
                (spot, when),
            ) && now <= when + 500_000_000 && within_four(spot.x, up.0.x) && within_four(
                spot.y,
                up.0.y,
            )))
        }),
{
}

/// What a later click is measured against: the place and time of a click, and
/// nothing after a drag.
pub proof fn lemma_a_click_is_remembered_and_a_drag_is_not(
    state: MouseModel,
    up: Place,
    now: u64,
)
    ensures
        state.left_down matches Some(down) && down.0 != up.0 ==> state.after_left_up(
            up,
            now,
        ).last_click is None,
        !(state.left_down matches Some(down) && down.0 != up.0) ==> state.after_left_up(
            up,
            now,
        ).last_click == Some((up.0, now)),
        state.after_left_down(up).last_click == state.last_click,
        state.after_move(up, now).last_click == state.last_click,
        state_after_due(state, now).last_click == state.last_click,
        state.without_hover().last_click == state.last_click,
{
}

/// Two clicks on one point: the first selects nothing, and the second selects
/// exactly where it comes within half a second, whatever was taken in between.
pub proof fn lemma_slow_clicks_select_nothing(
    down: Place,
    first_at: u64,
    taken_at: u64,
    second_at: u64,
)
    requires
        first_at <= second_at,
    ensures
        ({
            let once = idle_mouse().after_left_down(down).after_left_up(down, first_at);
            let again = state_after_due(once, taken_at).after_left_down(down).after_left_up(
                down,
                second_at,
            );
            &&& once.releases.last().rect is None
            &&& again.releases.last().rect is Some <==> second_at - first_at <= 500_000_000
        }),
{
}

/// A selection belongs to the process and the root window that the button went
/// down over where it was dragged, and to those it came up over where it was
/// not; an unknown one, which is zero, gives way to the other.
pub proof fn lemma_a_drag_belongs_to_where_it_began(state: MouseModel, up: Place, now: u64)
    ensures
        state.left_down matches Some(down) ==> {
            let release = state.after_left_up(up, now).releases.last();
            &&& down.0 != up.0 && down.1 != 0 ==> release.process_id == down.1
            &&& down.0 != up.0 && down.2 != 0 ==> release.source_root_window == down.2
            &&& down.0 == up.0 && up.1 != 0 ==> release.process_id == up.1
            &&& down.0 == up.0 && up.2 != 0 ==> release.source_root_window == up.2
            &&& up.1 == 0 ==> release.process_id == down.1
            &&& up.2 == 0 ==> release.source_root_window == down.2
            &&& down.1 == 0 ==> release.process_id == up.1
            &&& down.2 == 0 ==> release.source_root_window == up.2
        },
        state.left_down is None ==> {
            let release = state.after_left_up(up, now).releases.last();
            release.process_id == up.1 && release.source_root_window == up.2
        },
{
}

/// The edges of a selected rectangle are the ends of the drag where they differ
/// in that direction; where they do not, the rectangle reaches eight pixels to
/// either side, as far as coordinates go.
pub proof fn lemma_selection_rect_has_the_ends_of_the_drag(start: ScreenPoint, end: ScreenPoint)
    ensures
        ({
            let rect = rect_spanned(start, end);
            &&& start.x < end.x ==> rect.left == start.x && rect.right == end.x
            &&& start.y < end.y ==> rect.top == start.y && rect.bottom == end.y
            &&& start.x == end.x && i32::MIN + 8 <= start.x <= i32::MAX - 8 ==> rect.left
                == start.x - 8 && rect.right == start.x + 8
            &&& start.y == end.y && i32::MIN + 8 <= start.y <= i32::MAX - 8 ==> rect.top
                == start.y - 8 && rect.bottom == start.y + 8
        }),
{
}

/// A drag selects the rectangle from the press to the release, and it becomes
/// due eighty milliseconds after the release, as the last of what waits.
pub proof fn lemma_a_drag_waits_to_be_selected(state: MouseModel, down: Place, up: Place, now: u64)
    requires
        state.wf(),
        down.0 != up.0,
        now + 80_000_000 <= u64::MAX,
    ensures
        ({
            let after = state.after_left_down(down).after_left_up(up, now);
            &&& after.releases.len() == state.releases.len() + 1
            &&& after.releases.drop_last() == state.releases
            &&& after.releases.last().rect == Some(rect_spanned(down.0, up.0))
            &&& after.selection_deadline == Some((now + 80_000_000) as u64)
            &&& after.left_down is None
        }),
{
    let after = state.after_left_down(down).after_left_up(up, now);
    assert(after.releases.drop_last() =~= state.releases);
}

/// Hover dwells for half a second: it is due then and not before, once, and
/// where the pointer came to rest.
pub proof fn lemma_hover_is_due_after_half_a_second(
    state: MouseModel,
    place: Place,
    now: u64,
    later: u64,
)
    requires
        state.wf(),
        state.hover_enabled,
        state.left_down is None,
        state.hover_anchor is None,
        state.releases.len() == 0,
        now + 500_000_000 <= u64::MAX,
    ensures
        ({
            let dwelling = state.after_move(place, now);
            let hover = MouseTrigger::Hover {
                pointer: place.0,
                process_id: place.1,
                source_root_window: place.2,
            };
            &&& due_events(dwelling, later) == if later < now + 500_000_000 {
                Seq::<MouseTrigger>::empty()
            } else {
                seq![hover]
            }
            &&& later >= now + 500_000_000 ==> due_events(
                state_after_due(dwelling, later),
                u64::MAX,
            ) == Seq::<MouseTrigger>::empty()
        }),
{
    let dwelling = state.after_move(place, now);
    if later < now + 500_000_000 {
        assert(due_events(dwelling, later) =~= Seq::<MouseTrigger>::empty());
    } else {
        assert(due_events(dwelling, later) =~= seq![
            MouseTrigger::Hover {
                pointer: place.0,
                process_id: place.1,
                source_root_window: place.2,
            },
        ]);
        assert(due_events(state_after_due(dwelling, later), u64::MAX)
            =~= Seq::<MouseTrigger>::empty());
    }
}

/// Four pixels in a straight line are jitter, and anything further is movement.
pub proof fn lemma_four_pixels_are_jitter(from: ScreenPoint, to: ScreenPoint)
    ensures
        from.y == to.y ==> (moved_away(from, to) <==> !within_four(from.x, to.x)),
        from.x == to.x ==> (moved_away(from, to) <==> !within_four(from.y, to.y)),
        !within_four(from.x, to.x) || !within_four(from.y, to.y) ==> moved_away(from, to),
        moved_away(from, to) == moved_away(to, from),
{
    let dx = to.x - from.x;
    let dy = to.y - from.y;
    assert(dx * dx >= 0 && dy * dy >= 0) by (nonlinear_arith);
    assert((-4 <= dx <= 4) <==> dx * dx <= 16) by (nonlinear_arith);
    assert((-4 <= dy <= 4) <==> dy * dy <= 16) by (nonlinear_arith);
    assert((from.x - to.x) * (from.x - to.x) == dx * dx) by (nonlinear_arith)
        requires
            dx == to.x - from.x,
    ;
    assert((from.y - to.y) * (from.y - to.y) == dy * dy) by (nonlinear_arith)
        requires
            dy == to.y - from.y,
    ;
    assert(dx == 0 ==> dx * dx == 0) by (nonlinear_arith);
    assert(dy == 0 ==> dy * dy == 0) by (nonlinear_arith);
}

/// Switching hover on or off drops what was pending, and a switch disowns what
/// was announced.
pub proof fn lemma_switching_hover_starts_afresh(state: MouseModel, enabled: bool)
    ensures
        state.with_hover(enabled).hover_enabled == enabled,
        !state.with_hover(enabled).hover_pending(),
        state.with_hover(enabled).hover_generation != state.hover_generation <==> enabled
            != state.hover_enabled,
        state.with_hover(enabled).releases == state.releases,
        state.with_hover(enabled).left_down == state.left_down,
{
}

/// The hook forwards every movement, the release of the left button and the
/// press of any button, and nothing else: no wheel, no other release.
pub proof fn lemma_what_the_hook_forwards(kind: u32, forward: bool)
    requires
        call_ensures(should_forward_hook_message, (kind,), forward),
    ensures
        forward <==> kind == 0x200 || kind == 0x201 || kind == 0x202 || kind == 0x204 || kind
            == 0x207 || kind == 0x20b,
        is_button_down(kind) <==> kind == 0x201 || kind == 0x204 || kind == 0x207 || kind == 0x20b,
{
}

/// The mouse moves by the model: what is said of the model's presses, releases,
/// movements and due gestures holds of the code.
pub proof fn lemma_the_mouse_moves_by_the_model(
    pressed: &mut MouseState,
    released: &mut MouseState,
    moved: &mut MouseState,
    due: &mut MouseState,
    point: ScreenPoint,
    process: u32,
    root: isize,
    now: u64,
    first: (),
    second: (),
    third: (),
    events: Vec<MouseTrigger>,
)
    requires
        call_ensures(MouseState::on_left_down, (pressed, point, process, root, now), first),
        call_ensures(MouseState::on_left_up, (released, point, process, root, now), second),
        call_ensures(MouseState::on_move, (moved, point, process, root, now), third),
        call_ensures(MouseState::take_due, (due, now), events),
    ensures
        final(pressed)@ == old(pressed)@.after_left_down((point, process, root)),
        final(released)@ == old(released)@.after_left_up((point, process, root), now),
        final(moved)@ == old(moved)@.after_move((point, process, root), now),
        events@ == due_events(old(due)@, now),
        final(due)@ == state_after_due(old(due)@, now),
{
}

} // verus!
