//! The state of the resident shell: its popups, the request that is being
//! worked on, and what may be cancelled with what.
//!
//! Operations change the state and append the outside actions that follow, in
//! order. Facts that only a native window knows are handed in.

use crate::extraction::{TextContext, TriggerKind};
use crate::geometry::{ScreenPoint, ScreenRect};
use crate::mouse::{idle_mouse, MouseModel, MouseState};
use crate::popups::{is_id, PopupId, MAX_VISIBLE_POPUPS};
use crate::settings::{optional_text, AppConfig, ConfigModel};
use vstd::prelude::*;

verus! {

/// What a request is made of.
#[derive(Debug, PartialEq, Eq)]
pub struct RequestSpec {
    pub trigger: TriggerKind,
    pub process_id: u32,
    pub source_root_window: isize,
    pub foreground_guard_root_window: isize,
    pub pointer: Option<ScreenPoint>,
    pub selection_rect: Option<ScreenRect>,
    pub prompt_id: String,
    pub bypass_duplicate_suppression: bool,
    /// The popup that the text is read from.
    pub source_popup_id: Option<PopupId>,
    /// The popup that the result is shown in.
    pub destination_popup_id: Option<PopupId>,
}

impl RequestSpec {
    pub fn duplicate(&self) -> (copy: RequestSpec)
        ensures
            copy == *self,
    {
        RequestSpec {
            trigger: self.trigger,
            process_id: self.process_id,
            source_root_window: self.source_root_window,
            foreground_guard_root_window: self.foreground_guard_root_window,
            pointer: self.pointer,
            selection_rect: self.selection_rect,
            prompt_id: self.prompt_id.clone(),
            bypass_duplicate_suppression: self.bypass_duplicate_suppression,
            source_popup_id: self.source_popup_id,
            destination_popup_id: self.destination_popup_id,
        }
    }

    /// The request reads from the popup or shows its result in it.
    pub open spec fn mentions(self, id: PopupId) -> bool {
        self.source_popup_id == Some(id) || self.destination_popup_id == Some(id)
    }
}

fn mentions_popup(spec: &RequestSpec, id: PopupId) -> (mentions: bool)
    ensures
        mentions == spec.mentions(id),
{
    is_id(spec.source_popup_id, id) || is_id(spec.destination_popup_id, id)
}

/// An extraction that was asked for.
#[derive(Debug, PartialEq, Eq)]
pub struct PendingAttempt {
    pub attempt: u64,
    pub spec: RequestSpec,
    pub config_generation: u64,
}

/// A text that waits for its profile to be chosen.
#[derive(Debug, PartialEq, Eq)]
pub struct PendingProfileChoice {
    pub popup_id: PopupId,
    pub pending: PendingAttempt,
    pub text: TextContext,
    pub anchor: ScreenPoint,
    pub profile_ids: Vec<String>,
}

/// What is sent to the provider.
#[derive(Debug, PartialEq, Eq)]
pub struct PreparedText {
    pub target: String,
    pub context: Option<String>,
    pub prompt_id: String,
    pub model: String,
}

/// What a known result is kept under besides its request.
#[derive(Debug, PartialEq, Eq)]
pub struct CacheIdentity {
    pub source: String,
    pub provider: String,
}

/// A request whose result is awaited.
#[derive(Debug, PartialEq, Eq)]
pub struct ActiveRequest {
    pub process_id: u32,
    pub text: TextContext,
    pub prepared: PreparedText,
    pub cache: CacheIdentity,
}

/// A popup.
#[derive(Debug, PartialEq, Eq)]
pub struct PopupEntry {
    pub id: PopupId,
    pub last_request: Option<RequestSpec>,
    pub last_text: Option<TextContext>,
    pub presented_trigger: Option<TriggerKind>,
    pub guard_root_window: isize,
    pub anchor: ScreenPoint,
    pub parent: Option<PopupId>,
    pub created_order: u64,
}

/// What only the native window of a popup knows.
#[derive(Clone, Copy, Debug, PartialEq, Eq, Structural)]
pub struct PopupFacts {
    pub id: PopupId,
    pub pinned: bool,
    pub completed: bool,
    /// The window can show a result.
    pub available: bool,
}

/// An outside action.
#[derive(Clone, Copy, Debug, PartialEq, Eq, Structural)]
pub enum ShellAction {
    /// Cancel the running and the waiting extraction.
    CancelExtraction,
    /// Cancel the stream of the provider.
    CancelProvider,
    /// Give up the job that is current.
    CancelJob,
    /// Dismiss the native window and forget it.
    DismissPopup(PopupId),
    /// Forget the native window, which is already gone.
    ForgetPopup(PopupId),
    /// Stop the timer of the selection.
    StopSelectionTimer,
    /// Stop the timer of the hover.
    StopHoverTimer,
    /// Forget every cached result.
    ClearCache,
}

/// The state of the shell.
#[derive(Debug)]
pub struct Shell {
    pub popups: Vec<PopupEntry>,
    pub next_popup_id: PopupId,
    pub hover_enabled: bool,
    pub rest_enabled: bool,
    pub mouse: MouseState,
    pub pending: Option<PendingAttempt>,
    pub pending_profile_choice: Option<PendingProfileChoice>,
    pub last_request: Option<RequestSpec>,
    pub active_request: Option<ActiveRequest>,
    /// A provider stream runs that can be cancelled.
    pub provider_active: bool,
    pub stream_output: String,
    pub popup_job_id: Option<u64>,
    pub active_popup_id: Option<PopupId>,
    pub presented_trigger: Option<TriggerKind>,
    pub popup_guard_root_window: isize,
    pub popup_anchor: ScreenPoint,
    pub last_selection_rect: Option<(ScreenRect, isize)>,
    pub active_prompt_id: Option<String>,
    pub config_generation: u64,
    pub popup_failure_reported: bool,
    pub config: AppConfig,
    pub startup_error: Option<String>,
    pub next_attempt: u64,
}

/// What a `Shell` holds.
#[verifier::ext_equal]
pub struct ShellModel {
    pub popups: Seq<PopupEntry>,
    pub next_popup_id: PopupId,
    pub hover_enabled: bool,
    pub rest_enabled: bool,
    pub mouse: MouseModel,
    pub pending: Option<PendingAttempt>,
    pub choice: Option<PendingProfileChoice>,
    pub last_request: Option<RequestSpec>,
    pub active_request: Option<ActiveRequest>,
    pub provider_active: bool,
    pub stream_output: Seq<char>,
    pub popup_job_id: Option<u64>,
    pub active_popup_id: Option<PopupId>,
    pub presented_trigger: Option<TriggerKind>,
    pub popup_guard_root_window: isize,
    pub popup_anchor: ScreenPoint,
    pub last_selection_rect: Option<(ScreenRect, isize)>,
    pub active_prompt_id: Option<Seq<char>>,
    pub config_generation: u64,
    pub popup_failure_reported: bool,
    pub config: ConfigModel,
    pub startup_error: Option<Seq<char>>,
    pub next_attempt: u64,
}

impl View for Shell {
    type V = ShellModel;

    open spec fn view(&self) -> ShellModel {
        ShellModel {
            popups: self.popups@,
            next_popup_id: self.next_popup_id,
            hover_enabled: self.hover_enabled,
            rest_enabled: self.rest_enabled,
            mouse: self.mouse@,
            pending: self.pending,
            choice: self.pending_profile_choice,
            last_request: self.last_request,
            active_request: self.active_request,
            provider_active: self.provider_active,
            stream_output: self.stream_output@,
            popup_job_id: self.popup_job_id,
            active_popup_id: self.active_popup_id,
            presented_trigger: self.presented_trigger,
            popup_guard_root_window: self.popup_guard_root_window,
            popup_anchor: self.popup_anchor,
            last_selection_rect: self.last_selection_rect,
            active_prompt_id: optional_text(self.active_prompt_id),
            config_generation: self.config_generation,
            popup_failure_reported: self.popup_failure_reported,
            config: self.config@,
            startup_error: optional_text(self.startup_error),
            next_attempt: self.next_attempt,
        }
    }
}

/// The index of the popup with the identifier `id`.
pub open spec fn popup_position(popups: Seq<PopupEntry>, id: PopupId) -> Option<int>
    decreases popups.len(),
{
    if popups.len() == 0 {
        None
    } else if popups[0].id == id {
        Some(0)
    } else {
        match popup_position(popups.drop_first(), id) {
            Some(i) => Some(i + 1),
            None => None,
        }
    }
}

/// The popup is registered.
pub open spec fn is_registered(popups: Seq<PopupEntry>, id: PopupId) -> bool {
    exists|i: int| 0 <= i < popups.len() && (#[trigger] popups[i]).id == id
}

pub proof fn lemma_popup_position(popups: Seq<PopupEntry>, id: PopupId)
    ensures
        match popup_position(popups, id) {
            Some(i) => 0 <= i < popups.len() && popups[i].id == id && forall|j: int|
                0 <= j < i ==> (#[trigger] popups[j]).id != id,
            None => forall|j: int| 0 <= j < popups.len() ==> (#[trigger] popups[j]).id != id,
        },
        popup_position(popups, id) is Some <==> is_registered(popups, id),
    decreases popups.len(),
{
    if popups.len() > 0 && popups[0].id != id {
        let rest = popups.drop_first();
        lemma_popup_position(rest, id);
        assert forall|j: int| 0 < j < popups.len() implies popups[j] == rest[j - 1] by {}
        if is_registered(popups, id) {
            let i = choose|i: int| 0 <= i < popups.len() && (#[trigger] popups[i]).id == id;
            assert(rest[i - 1].id == id);
        }
        if is_registered(rest, id) {
            let i = choose|i: int| 0 <= i < rest.len() && (#[trigger] rest[i]).id == id;
            assert(popups[i + 1].id == id);
        }
    }
}

/// No popup has `id` as its parent any more.
pub open spec fn orphaned(popups: Seq<PopupEntry>, id: PopupId) -> Seq<PopupEntry> {
    popups.map_values(
        |entry: PopupEntry|
            if entry.parent == Some(id) {
                PopupEntry { parent: None, ..entry }
            } else {
                entry
            },
    )
}

/// The popups without the one with the identifier `id`.
pub open spec fn popups_without(popups: Seq<PopupEntry>, id: PopupId) -> Seq<PopupEntry> {
    match popup_position(popups, id) {
        Some(i) => orphaned(popups.remove(i), id),
        None => orphaned(popups, id),
    }
}

impl ShellModel {
    /// The popup, if any, is registered.
    pub open spec fn is_live(self, id: Option<PopupId>) -> bool {
        id matches Some(popup) ==> is_registered(self.popups, popup)
    }

    /// The popups that the request mentions are registered.
    pub open spec fn refers_to_live(self, spec: RequestSpec) -> bool {
        self.is_live(spec.source_popup_id) && self.is_live(spec.destination_popup_id)
    }

    /// There are at most as many popups as fit, with different identifiers;
    /// parents, the active popup, an open choice and the pending extraction
    /// refer to registered popups; and while the user rests nothing is shown
    /// or worked on.
    pub open spec fn wf(self) -> bool {
        &&& self.mouse.wf()
        &&& self.popups.len() <= MAX_VISIBLE_POPUPS
        &&& forall|i: int| 0 <= i < self.popups.len() ==> (#[trigger] self.popups[i]).id != 0
        &&& forall|i: int, j: int|
            0 <= i < j < self.popups.len() ==> (#[trigger] self.popups[i]).id != (
            #[trigger] self.popups[j]).id
        &&& forall|i: int|
            0 <= i < self.popups.len() ==> self.is_live((#[trigger] self.popups[i]).parent)
        &&& self.is_live(self.active_popup_id)
        &&& self.choice matches Some(choice) ==> is_registered(self.popups, choice.popup_id)
        &&& self.pending matches Some(pending) ==> self.refers_to_live(pending.spec)
        &&& self.config_generation >= 1
        &&& self.rest_enabled ==> self.is_quiet()
    }

    /// Nothing is shown or worked on.
    pub open spec fn is_quiet(self) -> bool {
        &&& self.popups.len() == 0
        &&& self.pending is None
        &&& self.choice is None
        &&& self.last_request is None
        &&& self.active_request is None
        &&& !self.provider_active
    }

    /// The state with the pending extraction given up.
    pub open spec fn without_pending(self) -> ShellModel {
        ShellModel { pending: None, ..self }
    }

    /// The state with all work given up; what is shown stays.
    pub open spec fn without_work(self) -> ShellModel {
        ShellModel {
            pending: None,
            provider_active: false,
            active_request: None,
            active_popup_id: None,
            popup_job_id: None,
            stream_output: Seq::empty(),
            ..self
        }
    }

    /// The actions that giving up all work takes.
    pub open spec fn work_cancellation(self) -> Seq<ShellAction> {
        seq![ShellAction::CancelExtraction] + (if self.provider_active {
            seq![ShellAction::CancelProvider]
        } else {
            seq![]
        }) + seq![ShellAction::CancelJob]
    }

    /// The pending extraction is for the popup.
    pub open spec fn pending_mentions(self, id: PopupId) -> bool {
        self.pending matches Some(pending) && pending.spec.mentions(id)
    }

    /// The state without the popup, and without everything that refers to it:
    /// a pending extraction, a choice of profile, the running request, the
    /// last request, and the parents of other popups.
    pub open spec fn without_popup(self, id: PopupId) -> ShellModel {
        let active = self.active_popup_id == Some(id);
        ShellModel {
            popups: popups_without(self.popups, id),
            pending: if self.pending_mentions(id) {
                None
            } else {
                self.pending
            },
            choice: if self.choice matches Some(choice) && choice.popup_id == id {
                None
            } else {
                self.choice
            },
            provider_active: self.provider_active && !active,
            active_request: if active {
                None
            } else {
                self.active_request
            },
            active_popup_id: if active {
                None
            } else {
                self.active_popup_id
            },
            popup_job_id: if active {
                None
            } else {
                self.popup_job_id
            },
            stream_output: if active {
                Seq::empty()
            } else {
                self.stream_output
            },
            last_request: if self.last_request matches Some(spec) && spec.mentions(id) {
                None
            } else {
                self.last_request
            },
            ..self
        }
    }

    /// The actions that removing the popup takes.
    pub open spec fn removal_actions(self, id: PopupId, dismiss_native: bool) -> Seq<ShellAction> {
        (if self.pending_mentions(id) {
            seq![ShellAction::CancelExtraction]
        } else {
            seq![]
        }) + (if self.active_popup_id == Some(id) {
            (if self.provider_active {
                seq![ShellAction::CancelProvider]
            } else {
                seq![]
            }) + seq![ShellAction::CancelJob]
        } else {
            seq![]
        }) + (if popup_position(self.popups, id) is None {
            seq![]
        } else if dismiss_native {
            seq![ShellAction::DismissPopup(id)]
        } else {
            seq![ShellAction::ForgetPopup(id)]
        })
    }

    /// The state without the popups `ids`, which were removed in order.
    pub open spec fn without_popups(self, ids: Seq<PopupId>) -> ShellModel
        decreases ids.len(),
    {
        if ids.len() == 0 {
            self
        } else {
            self.without_popups(ids.drop_last()).without_popup(ids.last())
        }
    }

    /// The actions that dismissing the popups `ids` in order takes.
    pub open spec fn dismissal_actions(self, ids: Seq<PopupId>) -> Seq<ShellAction>
        decreases ids.len(),
    {
        if ids.len() == 0 {
            Seq::empty()
        } else {
            self.dismissal_actions(ids.drop_last()) + self.without_popups(
                ids.drop_last(),
            ).removal_actions(ids.last(), true)
        }
    }
}

/// Removing a popup keeps every other one.
pub proof fn lemma_registered_after_removal(popups: Seq<PopupEntry>, id: PopupId, other: PopupId)
    requires
        is_registered(popups, other),
        other != id,
    ensures
        is_registered(popups_without(popups, id), other),
{
    let i = choose|i: int| 0 <= i < popups.len() && (#[trigger] popups[i]).id == other;
    lemma_popup_position(popups, id);
    let left = popups_without(popups, id);
    match popup_position(popups, id) {
        Some(at) => {
            let k = if i < at {
                i
            } else {
                i - 1
            };
            assert(popups.remove(at)[k] == popups[i]);
            assert(left[k].id == other);
        },
        None => {
            assert(left[i].id == other);
        },
    }
}

/// Removing a popup keeps the state well-formed and leaves nothing behind that
/// refers to it.
pub proof fn lemma_removal_leaves_no_reference(state: ShellModel, id: PopupId)
    requires
        state.wf(),
    ensures
        state.without_popup(id).wf(),
        !is_registered(state.without_popup(id).popups, id),
        state.without_popup(id).active_popup_id != Some(id),
        state.without_popup(id).pending matches Some(pending) ==> !pending.spec.mentions(id),
        state.without_popup(id).last_request matches Some(spec) ==> !spec.mentions(id),
        state.without_popup(id).choice matches Some(choice) ==> choice.popup_id != id,
        forall|i: int|
            0 <= i < state.without_popup(id).popups.len() ==> (
            #[trigger] state.without_popup(id).popups[i]).parent != Some(id),
{
    let after = state.without_popup(id);
    let before = state.popups;
    lemma_popup_position(before, id);
    let kept = match popup_position(before, id) {
        Some(at) => before.remove(at),
        None => before,
    };
    assert(after.popups == orphaned(kept, id));
    assert forall|i: int| 0 <= i < after.popups.len() implies (#[trigger] after.popups[i]).id
        == kept[i].id && after.popups[i].id != id && after.popups[i].id != 0 by {
        match popup_position(before, id) {
            Some(at) => {
                let k = if i < at {
                    i
                } else {
                    i + 1
                };
                assert(kept[i] == before[k]);
                assert(before[k].id != before[at].id) by {
                    if k < at {
                        assert(before[k].id != before[at].id);
                    } else {
                        assert(before[at].id != before[k].id);
                    }
                }
            },
            None => {
                assert(kept[i] == before[i]);
            },
        }
    }
    assert forall|i: int, j: int| 0 <= i < j < after.popups.len() implies (
    #[trigger] after.popups[i]).id != (#[trigger] after.popups[j]).id by {
        match popup_position(before, id) {
            Some(at) => {
                let a = if i < at {
                    i
                } else {
                    i + 1
                };
                let b = if j < at {
                    j
                } else {
                    j + 1
                };
                assert(kept[i] == before[a] && kept[j] == before[b]);
            },
            None => {},
        }
    }
    assert forall|other: PopupId| other != id && is_registered(
        before,
        other,
    ) implies is_registered(after.popups, other) by {
        lemma_registered_after_removal(before, id, other);
    }
    assert forall|i: int| 0 <= i < after.popups.len() implies after.is_live(
        (#[trigger] after.popups[i]).parent,
    ) && after.popups[i].parent != Some(id) by {
        let source = match popup_position(before, id) {
            Some(at) => if i < at {
                i
            } else {
                i + 1
            },
            None => i,
        };
        assert(kept[i] == before[source]);
        assert(state.is_live(before[source].parent));
    }
    if is_registered(after.popups, id) {
        let i = choose|i: int| 0 <= i < after.popups.len() && (#[trigger] after.popups[i]).id == id;
        assert(after.popups[i].id != id);
    }
}

/// Removing several popups keeps the state well-formed.
pub proof fn lemma_removals_keep_wf(state: ShellModel, ids: Seq<PopupId>)
    requires
        state.wf(),
    ensures
        state.without_popups(ids).wf(),
    decreases ids.len(),
{
    if ids.len() > 0 {
        lemma_removals_keep_wf(state, ids.drop_last());
        lemma_removal_leaves_no_reference(state.without_popups(ids.drop_last()), ids.last());
    }
}

/// Giving up work keeps the state well-formed, and what is shown stays: the
/// popups, the last request and its place.
pub proof fn lemma_cancelling_keeps_what_is_shown(state: ShellModel)
    requires
        state.wf(),
    ensures
        state.without_work().wf(),
        state.without_pending().wf(),
        state.without_work().popups == state.popups,
        state.without_work().last_request == state.last_request,
        state.without_work().popup_anchor == state.popup_anchor,
{
    assert forall|id: PopupId| is_registered(state.popups, id) implies is_registered(
        state.without_work().popups,
        id,
    ) by {}
}

/// A shell that starts: nothing is shown or worked on, and neither hover nor
/// rest mode is on.
pub open spec fn idle_shell(config: ConfigModel, startup_error: Option<Seq<char>>) -> ShellModel {
    ShellModel {
        popups: seq![],
        next_popup_id: 1,
        hover_enabled: false,
        rest_enabled: false,
        mouse: idle_mouse(),
        pending: None,
        choice: None,
        last_request: None,
        active_request: None,
        provider_active: false,
        stream_output: seq![],
        popup_job_id: None,
        active_popup_id: None,
        presented_trigger: None,
        popup_guard_root_window: 0,
        popup_anchor: ScreenPoint { x: 0, y: 0 },
        last_selection_rect: None,
        active_prompt_id: None,
        config_generation: 1,
        popup_failure_reported: false,
        config,
        startup_error,
        next_attempt: 1,
    }
}

impl Shell {
    pub fn new(config: AppConfig, startup_error: Option<String>) -> (shell: Shell)
        ensures
            shell@ == idle_shell(config@, optional_text(startup_error)),
            shell@.wf(),
    {
        let shell = Shell {
            popups: Vec::new(),
            next_popup_id: 1,
            hover_enabled: false,
            rest_enabled: false,
            mouse: MouseState::new(),
            pending: None,
            pending_profile_choice: None,
            last_request: None,
            active_request: None,
            provider_active: false,
            stream_output: String::new(),
            popup_job_id: None,
            active_popup_id: None,
            presented_trigger: None,
            popup_guard_root_window: 0,
            popup_anchor: ScreenPoint::new(0, 0),
            last_selection_rect: None,
            active_prompt_id: None,
            config_generation: 1,
            popup_failure_reported: false,
            config,
            startup_error,
            next_attempt: 1,
        };
        proof {
            assert(shell@ =~= idle_shell(config@, optional_text(startup_error)));
        }
        shell
    }

    /// The popup's index.
    pub fn popup_index(&self, id: PopupId) -> (index: Option<usize>)
        ensures
            match index {
                Some(i) => i < self.popups@.len() && popup_position(self.popups@, id) == Some(
                    i as int,
                ),
                None => popup_position(self.popups@, id) is None,
            },
    {
        proof {
            lemma_popup_position(self.popups@, id);
        }
        let mut i: usize = 0;
        while i < self.popups.len()
            invariant
                i <= self.popups@.len(),
                match popup_position(self.popups@, id) {
                    Some(p) => 0 <= p < self.popups@.len() && self.popups@[p].id == id
                        && forall|j: int| 0 <= j < p ==> (#[trigger] self.popups@[j]).id != id,
                    None => forall|j: int|
                        0 <= j < self.popups@.len() ==> (#[trigger] self.popups@[j]).id != id,
                },
                forall|j: int| 0 <= j < i ==> (#[trigger] self.popups@[j]).id != id,
            decreases self.popups@.len() - i,
        {
            if self.popups[i].id == id {
                return Some(i);
            }
            i = i + 1;
        }
        None
    }

    /// Gives the pending extraction up.
    pub fn cancel_pending_extraction(&mut self, actions: &mut Vec<ShellAction>)
        ensures
            final(self)@ == old(self)@.without_pending(),
            final(actions)@ == old(actions)@.push(ShellAction::CancelExtraction),
    {
        actions.push(ShellAction::CancelExtraction);
        self.pending = None;
    }

    fn cancel_provider_and_job(&mut self, actions: &mut Vec<ShellAction>)
        ensures
            final(self)@ == (ShellModel {
                provider_active: false,
                active_request: None,
                active_popup_id: None,
                popup_job_id: None,
                stream_output: Seq::empty(),
                ..old(self)@
            }),
            final(actions)@ == old(actions)@ + (if old(self)@.provider_active {
                seq![ShellAction::CancelProvider]
            } else {
                seq![]
            }) + seq![ShellAction::CancelJob],
    {
        if self.provider_active {
            self.provider_active = false;
            actions.push(ShellAction::CancelProvider);
        }
        actions.push(ShellAction::CancelJob);
        self.active_request = None;
        self.active_popup_id = None;
        self.popup_job_id = None;
        self.stream_output = String::new();
        proof {
            assert(actions@ =~= old(actions)@ + (if old(self)@.provider_active {
                seq![ShellAction::CancelProvider]
            } else {
                seq![]
            }) + seq![ShellAction::CancelJob]);
        }
    }

    /// Gives up everything that may still report something. What is shown
    /// stays.
    pub fn cancel_inflight_work(&mut self, actions: &mut Vec<ShellAction>)
        ensures
            final(self)@ == old(self)@.without_work(),
            final(actions)@ == old(actions)@ + old(self)@.work_cancellation(),
    {
        self.cancel_pending_extraction(actions);
        self.cancel_provider_and_job(actions);
        proof {
            assert(actions@ =~= old(actions)@ + old(self)@.work_cancellation());
        }
    }

    /// Removes a popup with everything that refers to it.
    pub fn remove_popup(
        &mut self,
        id: PopupId,
        dismiss_native: bool,
        actions: &mut Vec<ShellAction>,
    )
        requires
            old(self)@.wf(),
        ensures
            final(self)@ == old(self)@.without_popup(id),
            final(actions)@ == old(actions)@ + old(self)@.removal_actions(id, dismiss_native),
            final(self)@.wf(),
    {
        let ghost before = self@;
        proof {
            lemma_removal_leaves_no_reference(before, id);
        }
        let pending_hit: bool = match &self.pending {
            Some(pending) => mentions_popup(&pending.spec, id),
            None => false,
        };
        if pending_hit {
            self.cancel_pending_extraction(actions);
        }
        let choice_hit: bool = match &self.pending_profile_choice {
            Some(choice) => choice.popup_id == id,
            None => false,
        };
        if choice_hit {
            self.pending_profile_choice = None;
        }
        if is_id(self.active_popup_id, id) {
            self.cancel_provider_and_job(actions);
        }
        if let Some(index) = self.popup_index(id) {
            let _entry: PopupEntry = self.popups.remove(index);
            if dismiss_native {
                actions.push(ShellAction::DismissPopup(id));
            } else {
                actions.push(ShellAction::ForgetPopup(id));
            }
        }
        self.orphan_children(id);
        let last_hit: bool = match &self.last_request {
            Some(spec) => mentions_popup(spec, id),
            None => false,
        };
        if last_hit {
            self.last_request = None;
        }
        proof {
            assert(self@ =~= before.without_popup(id));
            assert(actions@ =~= old(actions)@ + before.removal_actions(id, dismiss_native));
        }
    }

    fn orphan_children(&mut self, id: PopupId)
        ensures
            final(self)@ == (ShellModel { popups: orphaned(old(self)@.popups, id), ..old(self)@ }),
    {
        let ghost before = self@;
        let mut i: usize = 0;
        while i < self.popups.len()
            invariant
                i <= self.popups@.len() == before.popups.len(),
                self@ == (ShellModel { popups: self@.popups, ..before }),
                forall|j: int| i <= j < before.popups.len() ==> self@.popups[j] == before.popups[j],
                forall|j: int|
                    0 <= j < i ==> self@.popups[j] == orphaned(before.popups, id)[j],
            decreases self.popups@.len() - i,
        {
            if is_id(self.popups[i].parent, id) {
                self.popups[i].parent = None;
            }
            i = i + 1;
        }
        proof {
            assert(self@.popups =~= orphaned(before.popups, id));
        }
    }

    /// Dismisses the popups `ids` in order.
    pub fn dismiss_popups(&mut self, ids: &Vec<PopupId>, actions: &mut Vec<ShellAction>)
        requires
            old(self)@.wf(),
        ensures
            final(self)@ == old(self)@.without_popups(ids@),
            final(actions)@ == old(actions)@ + old(self)@.dismissal_actions(ids@),
            final(self)@.wf(),
    {
        let ghost before = self@;
        let ghost noted = actions@;
        let mut i: usize = 0;
        proof {
            assert(ids@.take(0) =~= Seq::empty());
            assert(noted + before.dismissal_actions(ids@.take(0)) =~= noted);
        }
        while i < ids.len()
            invariant
                i <= ids@.len(),
                self@.wf(),
                self@ == before.without_popups(ids@.take(i as int)),
                actions@ == noted + before.dismissal_actions(ids@.take(i as int)),
            decreases ids@.len() - i,
        {
            proof {
                assert(ids@.take(i as int + 1).drop_last() =~= ids@.take(i as int));
            }
            self.remove_popup(ids[i], true, actions);
            i = i + 1;
            proof {
                assert(actions@ =~= noted + before.dismissal_actions(ids@.take(i as int)));
            }
        }
        proof {
            assert(ids@.take(i as int) =~= ids@);
        }
    }
}

/// Exactly the removed popups are gone.
pub proof fn lemma_exactly_the_removed_are_gone(state: ShellModel, ids: Seq<PopupId>, id: PopupId)
    requires
        state.wf(),
    ensures
        is_registered(state.without_popups(ids).popups, id) <==> is_registered(state.popups, id)
            && !ids.contains(id),
    decreases ids.len(),
{
    if ids.len() > 0 {
        let front = ids.drop_last();
        let before = state.without_popups(front);
        lemma_exactly_the_removed_are_gone(state, front, id);
        lemma_removals_keep_wf(state, front);
        lemma_removal_leaves_no_reference(before, ids.last());
        assert(ids[ids.len() - 1] == ids.last());
        if ids.contains(id) && id != ids.last() {
            let k = ids.index_of(id);
            assert(front[k] == id);
        }
        if front.contains(id) {
            let k = front.index_of(id);
            assert(ids[k] == id);
        }
        if id != ids.last() {
            if is_registered(before.popups, id) {
                lemma_registered_after_removal(before.popups, ids.last(), id);
            }
            if is_registered(before.without_popup(ids.last()).popups, id) {
                lemma_removal_adds_nothing(before, ids.last(), id);
            }
        }
    }
}

proof fn lemma_removal_adds_nothing(state: ShellModel, id: PopupId, other: PopupId)
    requires
        is_registered(state.without_popup(id).popups, other),
    ensures
        is_registered(state.popups, other),
{
    lemma_popup_position(state.popups, id);
    let left = state.without_popup(id).popups;
    let i = choose|i: int| 0 <= i < left.len() && (#[trigger] left[i]).id == other;
    match popup_position(state.popups, id) {
        Some(at) => {
            let kept = state.popups.remove(at);
            assert(left[i].id == kept[i].id);
            let k = if i < at {
                i
            } else {
                i + 1
            };
            assert(kept[i] == state.popups[k]);
            assert(state.popups[k].id == other);
        },
        None => {
            assert(left[i].id == state.popups[i].id);
        },
    }
}

/// Removing a popup that is not the active one leaves the running request alone,
/// and removing one that nothing refers to leaves the pending extraction, the
/// choice and the last request alone.
pub proof fn lemma_removal_spares_what_it_does_not_concern(state: ShellModel, id: PopupId)
    ensures
        state.active_popup_id != Some(id) ==> {
            &&& state.without_popup(id).active_request == state.active_request
            &&& state.without_popup(id).provider_active == state.provider_active
            &&& state.without_popup(id).active_popup_id == state.active_popup_id
            &&& state.without_popup(id).popup_job_id == state.popup_job_id
            &&& state.without_popup(id).stream_output == state.stream_output
        },
        state.active_popup_id == Some(id) ==> {
            &&& state.without_popup(id).active_request is None
            &&& !state.without_popup(id).provider_active
            &&& state.without_popup(id).popup_job_id is None
            &&& state.without_popup(id).stream_output.len() == 0
        },
        (state.pending matches Some(pending) ==> pending.spec.source_popup_id != Some(id)
            && pending.spec.destination_popup_id != Some(id)) ==> state.without_popup(id).pending
            == state.pending,
        state.pending matches Some(pending) && (pending.spec.source_popup_id == Some(id)
            || pending.spec.destination_popup_id == Some(id)) ==> state.without_popup(id).pending
            is None,
        (state.choice matches Some(choice) ==> choice.popup_id != id) ==> state.without_popup(
            id,
        ).choice == state.choice,
        (state.last_request matches Some(spec) ==> spec.source_popup_id != Some(id)
            && spec.destination_popup_id != Some(id)) ==> state.without_popup(id).last_request
            == state.last_request,
        state.without_popup(id).config == state.config,
        state.without_popup(id).active_prompt_id == state.active_prompt_id,
{
}

/// The window of a removed popup is dismissed, or forgotten where it is gone
/// already, exactly where the popup was registered; the stream into it is
/// cancelled exactly where one ran.
pub proof fn lemma_removal_tells_the_window(state: ShellModel, id: PopupId, dismiss: bool)
    ensures
        ({
            let actions = state.removal_actions(id, dismiss);
            &&& actions.contains(ShellAction::DismissPopup(id)) <==> dismiss && is_registered(
                state.popups,
                id,
            )
            &&& actions.contains(ShellAction::ForgetPopup(id)) <==> !dismiss && is_registered(
                state.popups,
                id,
            )
            &&& actions.contains(ShellAction::CancelProvider) <==> state.active_popup_id == Some(id)
                && state.provider_active
            &&& actions.contains(ShellAction::CancelJob) <==> state.active_popup_id == Some(id)
            &&& actions.contains(ShellAction::CancelExtraction) <==> (state.pending matches Some(
                pending,
            ) && (pending.spec.source_popup_id == Some(id) || pending.spec.destination_popup_id
                == Some(id)))
        }),
{
    let actions = state.removal_actions(id, dismiss);
    lemma_popup_position(state.popups, id);
    let extraction: int = if state.pending_mentions(id) {
        1
    } else {
        0
    };
    let provider: int = if state.active_popup_id == Some(id) && state.provider_active {
        1
    } else {
        0
    };
    let job: int = if state.active_popup_id == Some(id) {
        1
    } else {
        0
    };
    if extraction == 1 {
        assert(actions[0] == ShellAction::CancelExtraction);
    }
    if provider == 1 {
        assert(actions[extraction] == ShellAction::CancelProvider);
    }
    if job == 1 {
        assert(actions[extraction + provider] == ShellAction::CancelJob);
    }
    if is_registered(state.popups, id) {
        assert(actions.last() == if dismiss {
            ShellAction::DismissPopup(id)
        } else {
            ShellAction::ForgetPopup(id)
        });
        assert(actions[actions.len() - 1] == actions.last());
    }
}

/// Giving up all work ends the extraction, the stream and the job, and forgets
/// what was streamed; what is shown, remembered and configured stays.
pub proof fn lemma_giving_up_work_ends_it_all(state: ShellModel)
    ensures
        ({
            let after = state.without_work();
            &&& after.pending is None
            &&& after.active_request is None
            &&& !after.provider_active
            &&& after.active_popup_id is None
            &&& after.popup_job_id is None
            &&& after.stream_output.len() == 0
            &&& after.popups == state.popups
            &&& after.choice == state.choice
            &&& after.last_request == state.last_request
            &&& after.active_prompt_id == state.active_prompt_id
            &&& after.config == state.config
            &&& after.mouse == state.mouse
            &&& state.without_pending().pending is None
            &&& state.without_pending().active_request == state.active_request
            &&& state.without_pending().popups == state.popups
        }),
        state.work_cancellation().contains(ShellAction::CancelExtraction),
        state.work_cancellation().contains(ShellAction::CancelJob),
        state.work_cancellation().contains(ShellAction::CancelProvider) <==> state.provider_active,
        forall|id: PopupId|
            !(#[trigger] state.work_cancellation().contains(ShellAction::DismissPopup(id))),
{
    let actions = state.work_cancellation();
    assert(actions[0] == ShellAction::CancelExtraction);
    assert(actions.last() == ShellAction::CancelJob);
    assert(actions[actions.len() - 1] == actions.last());
    if state.provider_active {
        assert(actions[1] == ShellAction::CancelProvider);
    }
}

/// A new shell rests not, hovers not, shows nothing, and has the configuration and
/// the fault that it was given.
pub proof fn lemma_a_new_shell_is_idle(config: ConfigModel, error: Option<Seq<char>>)
    ensures
        ({
            let shell = idle_shell(config, error);
            &&& !shell.rest_enabled
            &&& !shell.hover_enabled
            &&& !shell.mouse.hover_enabled
            &&& shell.popups.len() == 0
            &&& shell.pending is None
            &&& shell.choice is None
            &&& shell.last_request is None
            &&& shell.active_request is None
            &&& !shell.provider_active
            &&& shell.active_prompt_id is None
            &&& shell.last_selection_rect is None
            &&& !shell.popup_failure_reported
            &&& shell.config == config
            &&& shell.startup_error == error
        }),
{
}

} // verus!
