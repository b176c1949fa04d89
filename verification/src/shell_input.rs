//! What the mouse, the hotkeys, the foreground window and rest mode do to the
//! shell.

use crate::extraction::TriggerKind;
use crate::geometry::ScreenPoint;
use crate::mouse::{
    idle_mouse, is_button_down, MouseModel, MouseState, RawMouseMessage, HOVER_DELAY,
    WM_LBUTTONDOWN, WM_LBUTTONUP, WM_MOUSEMOVE,
};
use crate::popups::{
    is_pointer_button_down, leaves_with_foreground, should_dismiss_for_outside_click,
    should_dismiss_hover_for_foreground, translation_enabled, PopupId,
};
use crate::shell::{
    is_registered, lemma_cancelling_keeps_what_is_shown, PopupEntry, PopupFacts, Shell, ShellAction,
    ShellModel,
};
use vstd::prelude::*;

verus! {

// Facts about popups.

/// The popup is pinned, as far as is known.
pub open spec fn is_pinned(facts: Seq<PopupFacts>, id: PopupId) -> bool
    decreases facts.len(),
{
    if facts.len() == 0 {
        false
    } else if facts[0].id == id {
        facts[0].pinned
    } else {
        is_pinned(facts.drop_first(), id)
    }
}

pub fn pinned(facts: &Vec<PopupFacts>, id: PopupId) -> (pinned: bool)
    ensures
        pinned == is_pinned(facts@, id),
{
    let mut i: usize = 0;
    proof {
        assert(facts@.skip(0) =~= facts@);
    }
    while i < facts.len()
        invariant
            i <= facts@.len(),
            is_pinned(facts@, id) == is_pinned(facts@.skip(i as int), id),
        decreases facts@.len() - i,
    {
        if facts[i].id == id {
            return facts[i].pinned;
        }
        proof {
            assert(facts@.skip(i as int).drop_first() =~= facts@.skip(i as int + 1));
        }
        i = i + 1;
    }
    false
}

/// The identifiers, in order, of the popups that `leaves` picks.
pub open spec fn ids_where(
    popups: Seq<PopupEntry>,
    leaves: spec_fn(PopupEntry) -> bool,
) -> Seq<PopupId>
    decreases popups.len(),
{
    if popups.len() == 0 {
        Seq::empty()
    } else {
        let before = ids_where(popups.drop_last(), leaves);
        if leaves(popups.last()) {
            before.push(popups.last().id)
        } else {
            before
        }
    }
}

/// The popups that a click on `clicked` dismisses: all that are neither clicked
/// nor pinned.
pub open spec fn leaves_on_click(
    facts: Seq<PopupFacts>,
    clicked: Option<PopupId>,
) -> spec_fn(PopupEntry) -> bool {
    |entry: PopupEntry| clicked != Some(entry.id) && !is_pinned(facts, entry.id)
}

/// The popups of hovers.
pub open spec fn shows_hover() -> spec_fn(PopupEntry) -> bool {
    |entry: PopupEntry| entry.presented_trigger == Some(TriggerKind::Hover)
}

/// The popups that go when another application comes to the foreground.
pub open spec fn leaves_on_foreground(
    facts: Seq<PopupFacts>,
    new_root_window: isize,
    foreground_is_popup: bool,
) -> spec_fn(PopupEntry) -> bool {
    |entry: PopupEntry|
        leaves_with_foreground(
            entry.presented_trigger,
            entry.guard_root_window,
            new_root_window,
            is_pinned(facts, entry.id),
            foreground_is_popup,
        )
}

// Transitions.

impl ShellModel {
    /// A hover waits for its text.
    pub open spec fn hover_is_pending(self) -> bool {
        self.pending matches Some(pending) && pending.spec.trigger == TriggerKind::Hover
    }

    /// The state with a pending hover extraction given up.
    pub open spec fn without_hover_extraction(self) -> ShellModel {
        if self.hover_is_pending() {
            self.without_pending()
        } else {
            self
        }
    }

    pub open spec fn hover_cancellation(self) -> Seq<ShellAction> {
        if self.hover_is_pending() {
            seq![ShellAction::CancelExtraction]
        } else {
            seq![]
        }
    }

    /// The state with the timed hover and its extraction dropped.
    pub open spec fn without_timed_hover(self) -> ShellModel {
        ShellModel { mouse: self.mouse.without_hover(), ..self.without_hover_extraction() }
    }

    /// The state after another window came to the foreground.
    pub open spec fn after_foreground(
        self,
        facts: Seq<PopupFacts>,
        new_root_window: isize,
        foreground_is_popup: bool,
    ) -> ShellModel {
        let settled = if foreground_is_popup {
            self
        } else {
            self.without_timed_hover()
        };
        settled.without_popups(
            ids_where(
                self.popups,
                leaves_on_foreground(facts, new_root_window, foreground_is_popup),
            ),
        )
    }

    pub open spec fn foreground_actions(
        self,
        facts: Seq<PopupFacts>,
        new_root_window: isize,
        foreground_is_popup: bool,
    ) -> Seq<ShellAction> {
        let settled = if foreground_is_popup {
            self
        } else {
            self.without_timed_hover()
        };
        (if foreground_is_popup {
            seq![]
        } else {
            self.hover_cancellation() + seq![ShellAction::StopHoverTimer]
        }) + settled.dismissal_actions(
            ids_where(
                self.popups,
                leaves_on_foreground(facts, new_root_window, foreground_is_popup),
            ),
        )
    }

    /// The state after hover was switched. Switching it off drops its work and
    /// its popups.
    pub open spec fn after_hover_switch(self) -> ShellModel {
        let enabled = !self.hover_enabled;
        let settled = if enabled {
            self
        } else {
            self.without_hover_extraction().without_popups(ids_where(self.popups, shows_hover()))
        };
        ShellModel { hover_enabled: enabled, mouse: self.mouse.with_hover(enabled), ..settled }
    }

    pub open spec fn hover_switch_actions(self) -> Seq<ShellAction> {
        if !self.hover_enabled {
            seq![]
        } else {
            self.hover_cancellation() + self.without_hover_extraction().dismissal_actions(
                ids_where(self.popups, shows_hover()),
            )
        }
    }

    /// The state after rest mode was switched: nothing is shown, worked on or
    /// remembered.
    pub open spec fn after_rest_switch(self, enabled: bool) -> ShellModel {
        ShellModel {
            rest_enabled: enabled,
            popups: Seq::empty(),
            mouse: idle_mouse().with_hover(self.hover_enabled),
            choice: None,
            last_request: None,
            last_selection_rect: None,
            ..self.without_work()
        }
    }

    pub open spec fn rest_switch_actions(self) -> Seq<ShellAction> {
        self.work_cancellation() + self.popups.map_values(
            |entry: PopupEntry| ShellAction::DismissPopup(entry.id),
        ) + seq![ShellAction::StopSelectionTimer, ShellAction::StopHoverTimer]
    }
}

/// A mouse message with what is under the pointer.
#[derive(Clone, Copy, Debug, PartialEq, Eq, Structural)]
pub struct PointerEvent {
    pub raw: RawMouseMessage,
    pub process_id: u32,
    pub source_root_window: isize,
    /// The process is the resident itself.
    pub is_resident: bool,
    /// The topmost popup under the pointer.
    pub clicked: Option<PopupId>,
    /// The pointer is over the output of a completed result.
    pub over_output: bool,
}

impl PointerEvent {
    pub open spec fn place(self) -> (ScreenPoint, u32, isize) {
        (ScreenPoint { x: self.raw.x, y: self.raw.y }, self.process_id, self.source_root_window)
    }
}

impl ShellModel {
    /// The mouse after the event; only movement and the left button count.
    pub open spec fn mouse_after(self, event: PointerEvent, now: u64) -> MouseModel {
        if event.raw.kind == WM_LBUTTONDOWN {
            self.mouse.after_left_down(event.place())
        } else if event.raw.kind == WM_LBUTTONUP {
            self.mouse.after_left_up(event.place(), now)
        } else {
            self.mouse.after_move(event.place(), now)
        }
    }

    /// The state once a press dismissed the popups elsewhere.
    pub open spec fn after_press(self, facts: Seq<PopupFacts>, event: PointerEvent) -> ShellModel {
        if is_button_down(event.raw.kind) {
            self.without_popups(ids_where(self.popups, leaves_on_click(facts, event.clicked)))
        } else {
            self
        }
    }

    pub open spec fn press_actions(self, facts: Seq<PopupFacts>, event: PointerEvent) -> Seq<
        ShellAction,
    > {
        if is_button_down(event.raw.kind) {
            self.dismissal_actions(ids_where(self.popups, leaves_on_click(facts, event.clicked)))
        } else {
            seq![]
        }
    }

    /// The event concerns the resident's own windows, and is not a hover over
    /// the output of a result.
    pub open spec fn is_own_event(self, event: PointerEvent) -> bool {
        event.is_resident && !(event.raw.kind == WM_MOUSEMOVE && self.hover_enabled
            && event.over_output)
    }

    /// A press of another button than the left one.
    pub open spec fn is_other_press(self, event: PointerEvent) -> bool {
        is_button_down(event.raw.kind) && event.raw.kind != WM_LBUTTONDOWN
    }

    /// The mouse follows the event.
    pub open spec fn is_followed(self, event: PointerEvent) -> bool {
        !self.rest_enabled && !self.is_own_event(event) && (event.raw.kind == WM_LBUTTONDOWN
            || event.raw.kind == WM_LBUTTONUP || event.raw.kind == WM_MOUSEMOVE)
    }

    /// The state after a mouse message.
    pub open spec fn after_pointer(
        self,
        facts: Seq<PopupFacts>,
        event: PointerEvent,
        now: u64,
    ) -> ShellModel {
        let pressed = self.after_press(facts, event);
        if self.rest_enabled {
            self
        } else if self.is_own_event(event) {
            pressed
        } else if self.is_other_press(event) {
            pressed.without_timed_hover()
        } else if self.is_followed(event) {
            let moved = ShellModel { mouse: self.mouse_after(event, now), ..pressed };
            if moved.mouse.hover_generation != self.mouse.hover_generation {
                moved.without_hover_extraction()
            } else {
                moved
            }
        } else {
            pressed
        }
    }

    pub open spec fn pointer_actions(
        self,
        facts: Seq<PopupFacts>,
        event: PointerEvent,
        now: u64,
    ) -> Seq<ShellAction> {
        let pressed = self.after_press(facts, event);
        if self.rest_enabled {
            seq![]
        } else if self.is_own_event(event) {
            self.press_actions(facts, event)
        } else if self.is_other_press(event) {
            self.press_actions(facts, event) + pressed.hover_cancellation()
                + seq![ShellAction::StopHoverTimer]
        } else if self.is_followed(event) && self.mouse_after(event, now).hover_generation
            != self.mouse.hover_generation {
            self.press_actions(facts, event) + pressed.hover_cancellation()
        } else {
            self.press_actions(facts, event)
        }
    }
}

/// Removing popups does not touch the mouse, the switches or the configuration.
pub proof fn lemma_removals_keep_the_rest(state: ShellModel, ids: Seq<PopupId>)
    ensures
        ({
            let after = state.without_popups(ids);
            &&& after.mouse == state.mouse
            &&& after.hover_enabled == state.hover_enabled
            &&& after.rest_enabled == state.rest_enabled
            &&& after.config == state.config
            &&& after.config_generation == state.config_generation
            &&& after.startup_error == state.startup_error
            &&& after.active_prompt_id == state.active_prompt_id
            &&& after.next_popup_id == state.next_popup_id
            &&& after.next_attempt == state.next_attempt
            &&& after.last_selection_rect == state.last_selection_rect
            &&& after.popup_failure_reported == state.popup_failure_reported
            &&& state.pending is None ==> after.pending is None
            &&& after.pending is Some ==> after.pending == state.pending
        }),
    decreases ids.len(),
{
    if ids.len() > 0 {
        lemma_removals_keep_the_rest(state, ids.drop_last());
    }
}

impl Shell {
    fn ids_on_click(&self, facts: &Vec<PopupFacts>, clicked: Option<PopupId>) -> (ids: Vec<PopupId>)
        ensures
            ids@ == ids_where(self.popups@, leaves_on_click(facts@, clicked)),
    {
        let ghost leaves = leaves_on_click(facts@, clicked);
        let mut ids: Vec<PopupId> = Vec::new();
        let mut i: usize = 0;
        proof {
            assert(self.popups@.take(0) =~= Seq::empty());
        }
        while i < self.popups.len()
            invariant
                i <= self.popups@.len(),
                leaves == leaves_on_click(facts@, clicked),
                ids@ == ids_where(self.popups@.take(i as int), leaves),
            decreases self.popups@.len() - i,
        {
            proof {
                assert(self.popups@.take(i as int + 1).drop_last() =~= self.popups@.take(i as int));
            }
            let id: PopupId = self.popups[i].id;
            if should_dismiss_for_outside_click(clicked, id, pinned(facts, id)) {
                ids.push(id);
            }
            i = i + 1;
        }
        proof {
            assert(self.popups@.take(i as int) =~= self.popups@);
        }
        ids
    }

    fn ids_of_hovers(&self) -> (ids: Vec<PopupId>)
        ensures
            ids@ == ids_where(self.popups@, shows_hover()),
    {
        let mut ids: Vec<PopupId> = Vec::new();
        let mut i: usize = 0;
        proof {
            assert(self.popups@.take(0) =~= Seq::empty());
        }
        while i < self.popups.len()
            invariant
                i <= self.popups@.len(),
                ids@ == ids_where(self.popups@.take(i as int), shows_hover()),
            decreases self.popups@.len() - i,
        {
            proof {
                assert(self.popups@.take(i as int + 1).drop_last() =~= self.popups@.take(i as int));
            }
            let is_hover: bool = match self.popups[i].presented_trigger {
                Some(trigger) => trigger == TriggerKind::Hover,
                None => false,
            };
            if is_hover {
                ids.push(self.popups[i].id);
            }
            i = i + 1;
        }
        proof {
            assert(self.popups@.take(i as int) =~= self.popups@);
        }
        ids
    }

    fn ids_on_foreground(
        &self,
        facts: &Vec<PopupFacts>,
        new_root_window: isize,
        foreground_is_popup: bool,
    ) -> (ids: Vec<PopupId>)
        ensures
            ids@ == ids_where(
                self.popups@,
                leaves_on_foreground(facts@, new_root_window, foreground_is_popup),
            ),
    {
        let ghost leaves = leaves_on_foreground(facts@, new_root_window, foreground_is_popup);
        let mut ids: Vec<PopupId> = Vec::new();
        let mut i: usize = 0;
        proof {
            assert(self.popups@.take(0) =~= Seq::empty());
        }
        while i < self.popups.len()
            invariant
                i <= self.popups@.len(),
                leaves == leaves_on_foreground(facts@, new_root_window, foreground_is_popup),
                ids@ == ids_where(self.popups@.take(i as int), leaves),
            decreases self.popups@.len() - i,
        {
            proof {
                assert(self.popups@.take(i as int + 1).drop_last() =~= self.popups@.take(i as int));
            }
            let entry: &PopupEntry = &self.popups[i];
            if should_dismiss_hover_for_foreground(
                entry.presented_trigger,
                entry.guard_root_window,
                new_root_window,
                true,
                pinned(facts, entry.id),
                foreground_is_popup,
            ) {
                ids.push(entry.id);
            }
            i = i + 1;
        }
        proof {
            assert(self.popups@.take(i as int) =~= self.popups@);
        }
        ids
    }

    /// Gives a pending hover extraction up; other requests go on.
    pub fn cancel_hover_extraction(&mut self, actions: &mut Vec<ShellAction>)
        ensures
            final(self)@ == old(self)@.without_hover_extraction(),
            final(actions)@ == old(actions)@ + old(self)@.hover_cancellation(),
    {
        let is_hover: bool = match &self.pending {
            Some(pending) => pending.spec.trigger == TriggerKind::Hover,
            None => false,
        };
        if is_hover {
            self.cancel_pending_extraction(actions);
        }
        proof {
            assert(actions@ =~= old(actions)@ + old(self)@.hover_cancellation());
        }
    }

    fn drop_timed_hover(&mut self, actions: &mut Vec<ShellAction>)
        requires
            old(self)@.wf(),
        ensures
            final(self)@ == old(self)@.without_timed_hover(),
            final(actions)@ == old(actions)@ + old(self)@.hover_cancellation()
                + seq![ShellAction::StopHoverTimer],
            final(self)@.wf(),
    {
        let ghost before = self@;
        self.mouse.cancel_hover_candidate();
        self.cancel_hover_extraction(actions);
        actions.push(ShellAction::StopHoverTimer);
        proof {
            assert(self@ =~= before.without_timed_hover());
            assert(actions@ =~= old(actions)@ + before.hover_cancellation()
                + seq![ShellAction::StopHoverTimer]);
            lemma_cancelling_keeps_what_is_shown(before);
            assert forall|id: PopupId| is_registered(before.popups, id) implies is_registered(
                self@.popups,
                id,
            ) by {}
            assert(self@.wf());
        }
    }

    /// Another window came to the foreground: a hover that was being timed is
    /// dropped, unless the window is a popup, and so are the popups of hovers
    /// over other applications.
    pub fn handle_foreground_changed(
        &mut self,
        facts: &Vec<PopupFacts>,
        new_root_window: isize,
        foreground_is_popup: bool,
        actions: &mut Vec<ShellAction>,
    )
        requires
            old(self)@.wf(),
        ensures
            final(self)@ == old(self)@.after_foreground(
                facts@,
                new_root_window,
                foreground_is_popup,
            ),
            final(actions)@ == old(actions)@ + old(self)@.foreground_actions(
                facts@,
                new_root_window,
                foreground_is_popup,
            ),
            final(self)@.wf(),
    {
        let ghost before = self@;
        if !foreground_is_popup {
            self.drop_timed_hover(actions);
        }
        let ids: Vec<PopupId> = self.ids_on_foreground(facts, new_root_window, foreground_is_popup);
        self.dismiss_popups(&ids, actions);
        proof {
            assert(actions@ =~= old(actions)@ + before.foreground_actions(
                facts@,
                new_root_window,
                foreground_is_popup,
            ));
        }
    }

    /// Switches hover on or off; not while the user rests. Returns the new
    /// setting.
    pub fn toggle_hover(&mut self, now: u64, actions: &mut Vec<ShellAction>) -> (enabled: Option<
        bool,
    >)
        requires
            old(self)@.wf(),
        ensures
            enabled == if old(self)@.rest_enabled {
                None
            } else {
                Some(!old(self)@.hover_enabled)
            },
            final(self)@ == if old(self)@.rest_enabled {
                old(self)@
            } else {
                old(self)@.after_hover_switch()
            },
            final(actions)@ == if old(self)@.rest_enabled {
                old(actions)@
            } else {
                old(actions)@ + old(self)@.hover_switch_actions()
            },
            final(self)@.wf(),
    {
        let ghost before = self@;
        if !translation_enabled(self.rest_enabled) {
            return None;
        }
        let enabled: bool = !self.hover_enabled;
        if !enabled {
            self.cancel_hover_extraction(actions);
            let ids: Vec<PopupId> = self.ids_of_hovers();
            proof {
                lemma_cancelling_keeps_what_is_shown(before);
            }
            self.dismiss_popups(&ids, actions);
            proof {
                lemma_removals_keep_the_rest(before.without_hover_extraction(), ids@);
            }
        }
        self.hover_enabled = enabled;
        self.mouse.set_hover_enabled(enabled, now);
        proof {
            assert(self@ =~= before.after_hover_switch());
            assert(actions@ =~= old(actions)@ + before.hover_switch_actions());
            let settled = if enabled {
                before
            } else {
                before.without_hover_extraction().without_popups(
                    ids_where(before.popups, shows_hover()),
                )
            };
            assert(settled.wf());
            assert(self@.popups == settled.popups);
            assert forall|id: PopupId| is_registered(settled.popups, id) implies is_registered(
                self@.popups,
                id,
            ) by {}
            assert(self@.wf());
        }
        Some(enabled)
    }

    /// Switches rest mode; returns whether that changed anything. Either way
    /// nothing is left that is shown or worked on.
    pub fn set_rest_mode(&mut self, enabled: bool, now: u64, actions: &mut Vec<ShellAction>) -> (changed:
        bool)
        requires
            old(self)@.wf(),
        ensures
            changed == (enabled != old(self)@.rest_enabled),
            final(self)@ == if changed {
                old(self)@.after_rest_switch(enabled)
            } else {
                old(self)@
            },
            final(actions)@ == if changed {
                old(actions)@ + old(self)@.rest_switch_actions()
            } else {
                old(actions)@
            },
            final(self)@.wf(),
    {
        let ghost before = self@;
        if self.rest_enabled == enabled {
            return false;
        }
        self.rest_enabled = enabled;
        self.cancel_inflight_work(actions);
        self.pending_profile_choice = None;
        self.last_request = None;
        self.last_selection_rect = None;
        let ghost noted = actions@;
        let mut i: usize = 0;
        while i < self.popups.len()
            invariant
                i <= self.popups@.len(),
                self.popups@ == before.popups,
                actions@ == noted + before.popups.take(i as int).map_values(
                    |entry: PopupEntry| ShellAction::DismissPopup(entry.id),
                ),
            decreases self.popups@.len() - i,
        {
            actions.push(ShellAction::DismissPopup(self.popups[i].id));
            i = i + 1;
            proof {
                assert(actions@ =~= noted + before.popups.take(i as int).map_values(
                    |entry: PopupEntry| ShellAction::DismissPopup(entry.id),
                ));
            }
        }
        proof {
            assert(before.popups.take(i as int) =~= before.popups);
        }
        self.popups = Vec::new();
        self.mouse = MouseState::new();
        self.mouse.set_hover_enabled(self.hover_enabled, now);
        actions.push(ShellAction::StopSelectionTimer);
        actions.push(ShellAction::StopHoverTimer);
        proof {
            assert(self@ =~= before.after_rest_switch(enabled));
            assert(actions@ =~= old(actions)@ + before.rest_switch_actions());
        }
        true
    }

    /// A mouse message. A press dismisses the popups elsewhere; then movement
    /// and the left button move the mouse state on, and other presses drop a
    /// timed hover. Returns whether the timers are to be set again.
    pub fn handle_mouse_message(
        &mut self,
        facts: &Vec<PopupFacts>,
        event: PointerEvent,
        now: u64,
        actions: &mut Vec<ShellAction>,
    ) -> (followed: bool)
        requires
            old(self)@.wf(),
            now + HOVER_DELAY <= u64::MAX,
        ensures
            followed == (old(self)@.is_followed(event) && !old(self)@.is_other_press(event)),
            final(self)@ == old(self)@.after_pointer(facts@, event, now),
            final(actions)@ == old(actions)@ + old(self)@.pointer_actions(facts@, event, now),
            final(self)@.wf(),
    {
        let ghost before = self@;
        if !translation_enabled(self.rest_enabled) {
            proof {
                assert(actions@ =~= old(actions)@ + before.pointer_actions(facts@, event, now));
            }
            return false;
        }
        let kind: u32 = event.raw.kind;
        let button_down: bool = is_pointer_button_down(kind);
        if button_down {
            let ids: Vec<PopupId> = self.ids_on_click(facts, event.clicked);
            self.dismiss_popups(&ids, actions);
            proof {
                lemma_removals_keep_the_rest(before, ids@);
            }
        }
        let ghost pressed = self@;
        proof {
            assert(pressed == before.after_press(facts@, event));
            assert(actions@ =~= old(actions)@ + before.press_actions(facts@, event));
        }
        let over_result: bool = kind == WM_MOUSEMOVE && self.hover_enabled && event.over_output;
        if event.is_resident && !over_result {
            return false;
        }
        if button_down && kind != WM_LBUTTONDOWN {
            self.drop_timed_hover(actions);
            proof {
                assert(actions@ =~= old(actions)@ + before.pointer_actions(facts@, event, now));
            }
            return false;
        }
        let point: ScreenPoint = ScreenPoint::new(event.raw.x, event.raw.y);
        let generation: u64 = self.mouse.hover_generation();
        if kind == WM_LBUTTONDOWN {
            self.mouse.on_left_down(point, event.process_id, event.source_root_window, now);
        } else if kind == WM_LBUTTONUP {
            self.mouse.on_left_up(point, event.process_id, event.source_root_window, now);
        } else if kind == WM_MOUSEMOVE {
            self.mouse.on_move(point, event.process_id, event.source_root_window, now);
        } else {
            return false;
        }
        let ghost moved = self@;
        proof {
            assert(moved =~= (ShellModel { mouse: before.mouse_after(event, now), ..pressed }));
            assert forall|id: PopupId| is_registered(pressed.popups, id) implies is_registered(
                moved.popups,
                id,
            ) by {}
            assert(moved.wf());
        }
        if self.mouse.hover_generation() != generation {
            proof {
                lemma_cancelling_keeps_what_is_shown(moved);
            }
            self.cancel_hover_extraction(actions);
        }
        proof {
            assert(self@ == before.after_pointer(facts@, event, now));
            assert(actions@ =~= old(actions)@ + before.pointer_actions(facts@, event, now));
        }
        true
    }
}

/// The milliseconds until a deadline, at least one; `None` stops the timer.
pub fn timer_millis(deadline: Option<u64>, now: u64) -> (millis: Option<u32>)
    ensures
        millis == match deadline {
            None => None,
            Some(at) => {
                let left = if at > now {
                    (at - now) / 1_000_000
                } else {
                    0
                };
                Some(
                    if left < 1 {
                        1
                    } else if left > u32::MAX {
                        u32::MAX
                    } else {
                        left as u32
                    },
                )
            },
        },
{
    match deadline {
        None => None,
        Some(at) => {
            let left: u64 = at.saturating_sub(now) / 1_000_000;
            Some(
                if left < 1 {
                    1
                } else if left > u32::MAX as u64 {
                    u32::MAX
                } else {
                    left as u32
                },
            )
        },
    }
}

/// While the user rests, no mouse message does anything.
pub proof fn lemma_rest_mode_ignores_the_mouse(
    state: ShellModel,
    facts: Seq<PopupFacts>,
    event: PointerEvent,
    now: u64,
)
    requires
        state.rest_enabled,
    ensures
        state.after_pointer(facts, event, now) == state,
        state.pointer_actions(facts, event, now) == Seq::<ShellAction>::empty(),
{
}

/// Entering and leaving rest mode both leave the shell with nothing shown or
/// worked on, and hover as it was.
pub proof fn lemma_rest_mode_clears_the_shell(state: ShellModel, enabled: bool)
    ensures
        state.after_rest_switch(enabled).is_quiet(),
        state.after_rest_switch(enabled).hover_enabled == state.hover_enabled,
        state.after_rest_switch(enabled).mouse.hover_enabled == state.hover_enabled,
        !state.after_rest_switch(enabled).mouse.hover_pending(),
{
}

/// A click never dismisses the popup that it hits, nor a pinned one.
pub proof fn lemma_click_spares_clicked_and_pinned(
    popups: Seq<PopupEntry>,
    facts: Seq<PopupFacts>,
    clicked: Option<PopupId>,
)
    ensures
        forall|i: int|
            0 <= i < ids_where(popups, leaves_on_click(facts, clicked)).len() ==> {
                let id = #[trigger] ids_where(popups, leaves_on_click(facts, clicked))[i];
                clicked != Some(id) && !is_pinned(facts, id)
            },
    decreases popups.len(),
{
    if popups.len() > 0 {
        lemma_click_spares_clicked_and_pinned(popups.drop_last(), facts, clicked);
        let before = ids_where(popups.drop_last(), leaves_on_click(facts, clicked));
        let ids = ids_where(popups, leaves_on_click(facts, clicked));
        assert forall|i: int| 0 <= i < ids.len() implies clicked != Some(#[trigger] ids[i])
            && !is_pinned(facts, ids[i]) by {
            if i < before.len() {
                assert(ids[i] == before[i]);
            }
        }
    }
}

/// What is known of a popup counts, and of an unknown one nothing.
pub proof fn lemma_facts_are_those_of_the_popup(facts: Seq<PopupFacts>, id: PopupId, i: int)
    requires
        forall|a: int, b: int|
            0 <= a < b < facts.len() ==> (#[trigger] facts[a]).id != (#[trigger] facts[b]).id,
    ensures
        0 <= i < facts.len() && facts[i].id == id ==> is_pinned(facts, id) == facts[i].pinned,
        (forall|a: int| 0 <= a < facts.len() ==> (#[trigger] facts[a]).id != id) ==> !is_pinned(
            facts,
            id,
        ),
    decreases facts.len(),
{
    if facts.len() > 0 && facts[0].id != id {
        let rest = facts.drop_first();
        assert forall|a: int, b: int| 0 <= a < b < rest.len() implies (#[trigger] rest[a]).id != (
        #[trigger] rest[b]).id by {
            assert(facts[a + 1].id != facts[b + 1].id);
        }
        lemma_facts_are_those_of_the_popup(rest, id, i - 1);
        if forall|a: int| 0 <= a < facts.len() ==> (#[trigger] facts[a]).id != id {
            assert forall|a: int| 0 <= a < rest.len() implies (#[trigger] rest[a]).id != id by {
                assert(facts[a + 1].id != id);
            }
        }
    } else if facts.len() > 0 && 0 < i < facts.len() {
        assert(facts[0].id != facts[i].id);
    }
}

proof fn lemma_ids_where(
    popups: Seq<PopupEntry>,
    leaves: spec_fn(PopupEntry) -> bool,
    id: PopupId,
)
    ensures
        ids_where(popups, leaves).contains(id) <==> exists|i: int|
            0 <= i < popups.len() && (#[trigger] popups[i]).id == id && leaves(popups[i]),
    decreases popups.len(),
{
    if popups.len() > 0 {
        let front = popups.drop_last();
        let before = ids_where(front, leaves);
        let ids = ids_where(popups, leaves);
        lemma_ids_where(front, leaves, id);
        assert(popups[popups.len() - 1] == popups.last());
        if before.contains(id) {
            let k = before.index_of(id);
            assert(ids[k] == id);
            let i = choose|i: int|
                0 <= i < front.len() && (#[trigger] front[i]).id == id && leaves(front[i]);
            assert(popups[i] == front[i]);
        }
        if ids.contains(id) && !before.contains(id) {
            let k = ids.index_of(id);
            if k < before.len() {
                assert(before[k] == id);
            }
        }
        if leaves(popups.last()) {
            assert(ids[ids.len() - 1] == popups.last().id);
        }
        if exists|i: int|
            0 <= i < popups.len() && (#[trigger] popups[i]).id == id && leaves(popups[i]) {
            let i = choose|i: int|
                0 <= i < popups.len() && (#[trigger] popups[i]).id == id && leaves(popups[i]);
            if i < front.len() {
                assert(front[i] == popups[i]);
            }
        }
    }
}

/// The message is the press of a button: left, right, middle or another one.
pub open spec fn is_press(kind: u32) -> bool {
    kind == 0x0201 || kind == 0x0204 || kind == 0x0207 || kind == 0x020b
}

proof fn lemma_registered_by_position(state: ShellModel, i: int, j: int)
    requires
        state.wf(),
        0 <= i < state.popups.len(),
        0 <= j < state.popups.len(),
        state.popups[i].id == state.popups[j].id,
    ensures
        i == j,
{
    if i < j {
        assert(state.popups[i].id != state.popups[j].id);
    } else if j < i {
        assert(state.popups[j].id != state.popups[i].id);
    }
}

/// A press keeps exactly the popup that it hits and the pinned ones; anything else
/// that the mouse does keeps them all.
pub proof fn lemma_a_press_keeps_the_hit_and_the_pinned(
    state: ShellModel,
    facts: Seq<PopupFacts>,
    event: PointerEvent,
    now: u64,
    i: int,
)
    requires
        state.wf(),
        !state.rest_enabled,
        0 <= i < state.popups.len(),
    ensures
        is_press(event.raw.kind) ==> (is_registered(
            state.after_pointer(facts, event, now).popups,
            state.popups[i].id,
        ) <==> event.clicked == Some(state.popups[i].id) || is_pinned(facts, state.popups[i].id)),
        !is_press(event.raw.kind) ==> state.after_pointer(facts, event, now).popups == state.popups,
{
    let id = state.popups[i].id;
    let leaves = leaves_on_click(facts, event.clicked);
    let ids = ids_where(state.popups, leaves);
    lemma_ids_where(state.popups, leaves, id);
    assert(is_registered(state.popups, id));
    crate::shell::lemma_exactly_the_removed_are_gone(state, ids, id);
    if ids.contains(id) {
        let j = choose|j: int|
            0 <= j < state.popups.len() && (#[trigger] state.popups[j]).id == id && leaves(
                state.popups[j],
            );
        lemma_registered_by_position(state, i, j);
    } else {
        assert(!leaves(state.popups[i]));
    }
}

/// When another window comes to the front, exactly the popups of hovers over yet
/// another known window go, unless they are pinned; a popup that comes to the
/// front sends none away.
pub proof fn lemma_the_foreground_keeps_all_but_hovers(
    state: ShellModel,
    facts: Seq<PopupFacts>,
    front: isize,
    is_popup: bool,
    i: int,
)
    requires
        state.wf(),
        0 <= i < state.popups.len(),
    ensures
        ({
            let entry = state.popups[i];
            is_registered(state.after_foreground(facts, front, is_popup).popups, entry.id) <==> !(
            entry.presented_trigger == Some(TriggerKind::Hover) && !is_pinned(facts, entry.id)
                && !is_popup && entry.guard_root_window != 0 && front != 0
                && entry.guard_root_window != front)
        }),
        is_popup ==> state.after_foreground(facts, front, is_popup).mouse == state.mouse
            && state.after_foreground(facts, front, is_popup).pending == state.pending,
        !is_popup ==> !state.after_foreground(facts, front, is_popup).mouse.hover_pending() && !(
        state.after_foreground(facts, front, is_popup).pending matches Some(pending)
            && pending.spec.trigger == TriggerKind::Hover),
{
    let id = state.popups[i].id;
    let leaves = leaves_on_foreground(facts, front, is_popup);
    let ids = ids_where(state.popups, leaves);
    let settled = if is_popup {
        state
    } else {
        state.without_timed_hover()
    };
    lemma_cancelling_keeps_what_is_shown(state);
    assert forall|other: PopupId| is_registered(state.popups, other) implies is_registered(
        settled.popups,
        other,
    ) by {}
    assert(settled.wf());
    lemma_ids_where(state.popups, leaves, id);
    assert(is_registered(state.popups, id));
    crate::shell::lemma_exactly_the_removed_are_gone(settled, ids, id);
    lemma_removals_keep_the_rest(settled, ids);
    if is_popup {
        assert forall|k: int| 0 <= k < state.popups.len() implies !leaves(
            #[trigger] state.popups[k],
        ) by {}
        lemma_none_leave(state.popups, leaves);
    }
    if ids.contains(id) {
        let j = choose|j: int|
            0 <= j < state.popups.len() && (#[trigger] state.popups[j]).id == id && leaves(
                state.popups[j],
            );
        lemma_registered_by_position(state, i, j);
    } else {
        assert(!leaves(state.popups[i]));
    }
}

proof fn lemma_none_leave(popups: Seq<PopupEntry>, leaves: spec_fn(PopupEntry) -> bool)
    requires
        forall|k: int| 0 <= k < popups.len() ==> !leaves(#[trigger] popups[k]),
    ensures
        ids_where(popups, leaves).len() == 0,
    decreases popups.len(),
{
    if popups.len() > 0 {
        let front = popups.drop_last();
        assert forall|k: int| 0 <= k < front.len() implies !leaves(#[trigger] front[k]) by {
            assert(front[k] == popups[k]);
        }
        lemma_none_leave(front, leaves);
        assert(!leaves(popups[popups.len() - 1]));
    }
}

/// Switching hover turns it into its opposite. Switched off, it takes the popups of
/// hovers with it and gives up a hover that waits for its text; the rest stays, and
/// switched on it takes nothing.
pub proof fn lemma_hover_takes_only_its_own(state: ShellModel, i: int)
    requires
        state.wf(),
        0 <= i < state.popups.len(),
    ensures
        state.after_hover_switch().hover_enabled == !state.hover_enabled,
        state.after_hover_switch().mouse.hover_enabled == !state.hover_enabled,
        is_registered(state.after_hover_switch().popups, state.popups[i].id) <==> !(
        state.hover_enabled && state.popups[i].presented_trigger == Some(TriggerKind::Hover)),
        !state.hover_enabled ==> state.after_hover_switch().pending == state.pending,
        state.hover_enabled ==> !(state.after_hover_switch().pending matches Some(pending)
            && pending.spec.trigger == TriggerKind::Hover),
{
    let id = state.popups[i].id;
    let settled = state.without_hover_extraction();
    let ids = ids_where(state.popups, shows_hover());
    lemma_cancelling_keeps_what_is_shown(state);
    lemma_ids_where(state.popups, shows_hover(), id);
    assert(is_registered(state.popups, id));
    assert(settled.wf());
    crate::shell::lemma_exactly_the_removed_are_gone(settled, ids, id);
    lemma_removals_keep_the_rest(settled, ids);
    if ids.contains(id) {
        let j = choose|j: int|
            0 <= j < state.popups.len() && (#[trigger] state.popups[j]).id == id && shows_hover()(
                state.popups[j],
            );
        lemma_registered_by_position(state, i, j);
    } else {
        assert(!shows_hover()(state.popups[i]));
    }
}

/// What the mouse does elsewhere reaches the mouse state as it is: a press, a
/// release and a movement at the pointer, with the process and the window below
/// it. What it does over the resident's own windows does not, but for a movement
/// over a completed output while hover is on.
pub proof fn lemma_the_mouse_is_followed_elsewhere(
    state: ShellModel,
    facts: Seq<PopupFacts>,
    event: PointerEvent,
    now: u64,
)
    requires
        !state.rest_enabled,
    ensures
        ({
            let after = state.after_pointer(facts, event, now);
            let place = (
                ScreenPoint { x: event.raw.x, y: event.raw.y },
                event.process_id,
                event.source_root_window,
            );
            let counts = !event.is_resident || event.raw.kind == 0x0200 && state.hover_enabled
                && event.over_output;
            &&& counts && event.raw.kind == 0x0201 ==> after.mouse == state.mouse.after_left_down(
                place,
            )
            &&& counts && event.raw.kind == 0x0202 ==> after.mouse == state.mouse.after_left_up(
                place,
                now,
            )
            &&& counts && event.raw.kind == 0x0200 ==> after.mouse == state.mouse.after_move(
                place,
                now,
            )
            &&& counts && (event.raw.kind == 0x0204 || event.raw.kind == 0x0207 || event.raw.kind
                == 0x020b) ==> !after.mouse.hover_pending() && after.mouse.releases
                == state.mouse.releases && after.mouse.left_down == state.mouse.left_down
            &&& !counts ==> after.mouse == state.mouse
            &&& (counts && (event.raw.kind == 0x0200 || event.raw.kind == 0x0201 || event.raw.kind
                == 0x0202) <==> state.is_followed(event))
        }),
{
    lemma_removals_keep_the_rest(
        state,
        ids_where(state.popups, leaves_on_click(facts, event.clicked)),
    );
}

/// A movement that disowns a hover gives up the extraction that waits for it, and
/// nothing else that is pending.
pub proof fn lemma_only_a_disowned_hover_is_given_up(
    state: ShellModel,
    facts: Seq<PopupFacts>,
    event: PointerEvent,
    now: u64,
)
    requires
        event.raw.kind == 0x0200,
    ensures
        ({
            let after = state.after_pointer(facts, event, now);
            let disowned = after.mouse.hover_generation != state.mouse.hover_generation;
            let hovers = state.pending matches Some(pending) && pending.spec.trigger
                == TriggerKind::Hover;
            &&& disowned && hovers ==> after.pending is None
            &&& !disowned || !hovers ==> after.pending == state.pending
            &&& after.active_request == state.active_request
        }),
{
}

/// Rest mode is what it is switched to, both ways; the configuration stays.
pub proof fn lemma_rest_mode_is_as_switched(state: ShellModel, enabled: bool)
    ensures
        state.after_rest_switch(enabled).rest_enabled == enabled,
        state.after_rest_switch(enabled).config == state.config,
        state.after_rest_switch(enabled).config_generation == state.config_generation,
        state.after_rest_switch(enabled).active_prompt_id == state.active_prompt_id,
        state.after_rest_switch(enabled).startup_error == state.startup_error,
        state.after_rest_switch(enabled).last_selection_rect is None,
        forall|i: int|
            0 <= i < state.popups.len() ==> state.rest_switch_actions().contains(
                ShellAction::DismissPopup((#[trigger] state.popups[i]).id),
            ),
        state.rest_switch_actions().contains(ShellAction::StopSelectionTimer),
        state.rest_switch_actions().contains(ShellAction::StopHoverTimer),
        state.rest_switch_actions().contains(ShellAction::CancelExtraction),
        state.provider_active ==> state.rest_switch_actions().contains(ShellAction::CancelProvider),
{
    let actions = state.rest_switch_actions();
    let work = state.work_cancellation();
    let dismissals = state.popups.map_values(
        |entry: PopupEntry| ShellAction::DismissPopup(entry.id),
    );
    assert forall|i: int| 0 <= i < state.popups.len() implies actions.contains(
        ShellAction::DismissPopup((#[trigger] state.popups[i]).id),
    ) by {
        assert(actions[work.len() + i] == dismissals[i]);
    }
    let timers = (work.len() + dismissals.len()) as int;
    assert(actions[timers] == ShellAction::StopSelectionTimer);
    assert(actions[timers + 1] == ShellAction::StopHoverTimer);
    assert(actions[0] == work[0]);
    if state.provider_active {
        assert(actions[1] == work[1]);
    }
}

// What the operations do to the shell.

/// Switching hover turns it around and tells the new setting; while the user
/// rests nothing is switched.
pub proof fn lemma_hover_is_turned_around(
    shell: &mut Shell,
    now: u64,
    actions: &mut Vec<ShellAction>,
    enabled: Option<bool>,
)
    requires
        call_ensures(Shell::toggle_hover, (shell, now, actions), enabled),
    ensures
        old(shell)@.rest_enabled ==> enabled is None && final(shell)@ == old(shell)@
            && final(actions)@ == old(actions)@,
        !old(shell)@.rest_enabled ==> enabled == Some(!old(shell)@.hover_enabled)
            && final(shell)@.hover_enabled != old(shell)@.hover_enabled,
{
}

/// The rest mode is what it was set to; setting it to what it is does nothing.
pub proof fn lemma_the_rest_mode_is_what_it_was_set_to(
    shell: &mut Shell,
    enabled: bool,
    now: u64,
    actions: &mut Vec<ShellAction>,
    changed: bool,
)
    requires
        call_ensures(Shell::set_rest_mode, (shell, enabled, now, actions), changed),
    ensures
        final(shell)@.rest_enabled == enabled,
        changed <==> old(shell)@.rest_enabled != enabled,
        !changed ==> final(shell)@ == old(shell)@ && final(actions)@ == old(actions)@,
{
}

/// A timer is set for the whole milliseconds that are left, and for at least
/// one, so that it neither fires long after nor is never set.
pub proof fn lemma_a_timer_runs_for_what_is_left(deadline: Option<u64>, now: u64, millis: Option<u32>)
    requires
        call_ensures(timer_millis, (deadline, now), millis),
    ensures
        deadline is None <==> millis is None,
        millis matches Some(count) ==> count >= 1,
        deadline matches Some(at) ==> (millis matches Some(count) && {
            &&& at <= now + 1_000_000 ==> count == 1
            &&& now + 1_000_000 <= at <= now + 4_000_000_000_000 ==> count * 1_000_000 <= at - now
                && at - now < (count + 1) * 1_000_000
        }),
{
}

/// The shell follows the window in front and the mouse by the rules of its
/// model.
pub proof fn lemma_the_shell_follows_by_the_model(
    front: &mut Shell,
    pointed: &mut Shell,
    facts: Vec<PopupFacts>,
    new_root: isize,
    popup_in_front: bool,
    event: PointerEvent,
    now: u64,
    actions: &mut Vec<ShellAction>,
    others: &mut Vec<ShellAction>,
    outcome: (),
    followed: bool,
)
    requires
        call_ensures(
            Shell::handle_foreground_changed,
            (front, &facts, new_root, popup_in_front, actions),
            outcome,
        ),
        call_ensures(Shell::handle_mouse_message, (pointed, &facts, event, now, others), followed),
    ensures
        final(front)@ == old(front)@.after_foreground(facts@, new_root, popup_in_front),
        final(actions)@ == old(actions)@ + old(front)@.foreground_actions(
            facts@,
            new_root,
            popup_in_front,
        ),
        final(pointed)@ == old(pointed)@.after_pointer(facts@, event, now),
        final(others)@ == old(others)@ + old(pointed)@.pointer_actions(facts@, event, now),
{
}

} // verus!
