//! From a trigger to a request that may be admitted: prompts, the pending
//! extraction, the choice of a profile, and repeating a result.

use crate::composition::ExtractionRequest;
use crate::extraction::{ExtractionFailure, ExtractionResult, TextContext, TriggerKind};
use crate::geometry::{ScreenPoint, ScreenRect};
use crate::mouse::MouseTrigger;
use crate::popups::{
    candidate_cancellation, chooser_order, profile_chooser_order, profile_for_generation,
    selection_rect_for_root, translation_enabled, CandidateCancellation, PopupId,
};
use crate::settings::{
    find_profile, has_profile, lemma_profile_position, profile_position, prompt_models,
    PromptConfig, PromptModel,
};
use crate::shell::{
    is_registered, lemma_cancelling_keeps_what_is_shown, lemma_removal_leaves_no_reference,
    lemma_popup_position, popup_position, PendingAttempt,
    PendingProfileChoice, PopupEntry, RequestSpec, Shell, ShellAction, ShellModel,
};
use crate::text::{copy_of, views};
use vstd::prelude::*;

verus! {

// Messages.

/// Why a request was not admitted.
#[derive(Clone, Copy, Debug, PartialEq, Eq, Structural)]
pub enum RequestRejection {
    MissingTarget,
    TargetTooLong,
    Cancelled,
    StaleJob,
    MissingPrompt,
    InvalidPrompt,
    MissingProviderConfig,
    InvalidProviderConfig,
}

pub open spec fn request_error_text(error: RequestRejection) -> Seq<char> {
    match error {
        RequestRejection::MissingTarget => "No selectable text was detected"@,
        RequestRejection::TargetTooLong => "Selected text is too long"@,
        RequestRejection::Cancelled => "Request cancelled"@,
        RequestRejection::StaleJob => "Request became stale"@,
        RequestRejection::MissingPrompt | RequestRejection::InvalidPrompt => {
            "Prompt configuration is invalid"@
        },
        RequestRejection::MissingProviderConfig | RequestRejection::InvalidProviderConfig => {
            "Provider configuration is unavailable"@
        },
    }
}

pub fn request_error(error: RequestRejection) -> (message: &'static str)
    ensures
        message@ == request_error_text(error),
{
    match error {
        RequestRejection::MissingTarget => "No selectable text was detected",
        RequestRejection::TargetTooLong => "Selected text is too long",
        RequestRejection::Cancelled => "Request cancelled",
        RequestRejection::StaleJob => "Request became stale",
        RequestRejection::MissingPrompt | RequestRejection::InvalidPrompt => {
            "Prompt configuration is invalid"
        },
        RequestRejection::MissingProviderConfig | RequestRejection::InvalidProviderConfig => {
            "Provider configuration is unavailable"
        },
    }
}

pub open spec fn extraction_error_text(error: ExtractionFailure) -> Seq<char> {
    match error {
        ExtractionFailure::UnsupportedPattern => "This control does not expose selectable text"@,
        ExtractionFailure::EmptyRange => "No selectable text was detected"@,
        ExtractionFailure::PermissionDenied => "Text access was denied"@,
        ExtractionFailure::StaleElement => "The text target changed before it could be read"@,
        ExtractionFailure::Platform => "Text extraction is unavailable"@,
    }
}

pub fn extraction_error(error: ExtractionFailure) -> (message: &'static str)
    ensures
        message@ == extraction_error_text(error),
{
    match error {
        ExtractionFailure::UnsupportedPattern => "This control does not expose selectable text",
        ExtractionFailure::EmptyRange => "No selectable text was detected",
        ExtractionFailure::PermissionDenied => "Text access was denied",
        ExtractionFailure::StaleElement => "The text target changed before it could be read",
        ExtractionFailure::Platform => "Text extraction is unavailable",
    }
}

// Prompts.

/// The identifier of the profile after the one named `current`, in a cycle; the
/// first one where that is not known, and nothing without profiles.
pub open spec fn following_prompt(profiles: Seq<PromptModel>, current: Seq<char>) -> Seq<char> {
    if profiles.len() == 0 {
        Seq::empty()
    } else {
        match profile_position(profiles, current) {
            Some(i) => profiles[(i + 1) % profiles.len() as int].id,
            None => profiles[0].id,
        }
    }
}

pub fn next_prompt(profiles: &Vec<PromptConfig>, current: &str) -> (next: String)
    ensures
        next@ == following_prompt(prompt_models(profiles@), current@),
{
    let ghost models = prompt_models(profiles@);
    let count: usize = profiles.len();
    if count == 0 {
        return String::new();
    }
    match find_profile(profiles.as_slice(), current) {
        Some(index) => {
            let following: usize = if index + 1 == count {
                0
            } else {
                index + 1
            };
            proof {
                if index + 1 == count {
                    assert((index + 1) % count as int == 0) by (nonlinear_arith)
                        requires
                            index + 1 == count,
                            count > 0,
                    ;
                } else {
                    assert((index + 1) % count as int == index + 1) by (nonlinear_arith)
                        requires
                            0 <= index + 1 < count,
                    ;
                }
                assert(models[following as int].id == profiles@[following as int].id@);
            }
            profiles[following].id.clone()
        },
        None => {
            proof {
                assert(models[0].id == profiles@[0].id@);
            }
            profiles[0].id.clone()
        },
    }
}

/// Cycling visits the profiles in order: from the profile at `index`, whose
/// identifier no other one has, the next is the one after it, and after the
/// last one comes the first.
pub proof fn lemma_prompts_cycle(profiles: Seq<PromptModel>, index: int)
    requires
        0 <= index < profiles.len(),
        forall|j: int| 0 <= j < index ==> (#[trigger] profiles[j]).id != profiles[index].id,
    ensures
        following_prompt(profiles, profiles[index].id) == if index + 1 < profiles.len() {
            profiles[index + 1].id
        } else {
            profiles[0].id
        },
{
    lemma_profile_position(profiles, profiles[index].id);
    let count = profiles.len() as int;
    if index + 1 == count {
        assert((index + 1) % count == 0) by (nonlinear_arith)
            requires
                index + 1 == count,
                count > 0,
        ;
    } else {
        assert((index + 1) % count == index + 1) by (nonlinear_arith)
            requires
                0 <= index + 1 < count,
        ;
    }
}

impl ShellModel {
    /// The prompt of a new request: the one that was chosen last, while its
    /// profile exists, or else the default.
    pub open spec fn selected_prompt(self, default_prompt: Seq<char>) -> Seq<char> {
        match self.active_prompt_id {
            Some(id) => if has_profile(self.config.profiles, id) {
                id
            } else {
                default_prompt
            },
            None => default_prompt,
        }
    }

    /// The prompt that cycling starts from.
    pub open spec fn cycled_prompt(self, default_prompt: Seq<char>) -> Seq<char> {
        match (self.active_prompt_id, self.last_request) {
            (Some(id), _) => id,
            (None, Some(spec)) => spec.prompt_id@,
            (None, None) => default_prompt,
        }
    }
}

/// `after` is `before` with the prompt `prompt`.
pub open spec fn reprompted(before: RequestSpec, after: RequestSpec, prompt: Seq<char>) -> bool {
    after == (RequestSpec { prompt_id: after.prompt_id, ..before }) && after.prompt_id@ == prompt
}

impl Shell {
    /// The prompt of a new request.
    pub fn selected_prompt_id(&self, default_prompt: &str) -> (prompt: String)
        ensures
            prompt@ == self@.selected_prompt(default_prompt@),
    {
        match &self.active_prompt_id {
            Some(id) => if find_profile(self.config.profiles.as_slice(), id.as_str()).is_some() {
                id.clone()
            } else {
                copy_of(default_prompt)
            },
            None => copy_of(default_prompt),
        }
    }

    /// Chooses the next prompt, for new requests and for repeating the last.
    pub fn cycle_prompt(&mut self, default_prompt: &str)
        requires
            old(self)@.wf(),
        ensures
            ({
                let next = following_prompt(
                    old(self)@.config.profiles,
                    old(self)@.cycled_prompt(default_prompt@),
                );
                if next.len() == 0 {
                    final(self)@ == old(self)@
                } else {
                    &&& final(self)@ == (ShellModel {
                        active_prompt_id: Some(next),
                        last_request: final(self)@.last_request,
                        ..old(self)@
                    })
                    &&& match (old(self)@.last_request, final(self)@.last_request) {
                        (Some(before), Some(after)) => reprompted(before, after, next),
                        (None, None) => true,
                        _ => false,
                    }
                }
            }),
            final(self)@.wf(),
    {
        let ghost before = self@;
        let next: String = match &self.active_prompt_id {
            Some(id) => next_prompt(&self.config.profiles, id.as_str()),
            None => match &self.last_request {
                Some(spec) => next_prompt(&self.config.profiles, spec.prompt_id.as_str()),
                None => next_prompt(&self.config.profiles, default_prompt),
            },
        };
        if next.as_str().is_empty() {
            return;
        }
        self.active_prompt_id = Some(next.clone());
        match self.last_request.take() {
            Some(spec) => {
                let mut spec: RequestSpec = spec;
                spec.prompt_id = next;
                self.last_request = Some(spec);
            },
            None => {},
        }
        proof {
            assert forall|id: PopupId| is_registered(before.popups, id) implies is_registered(
                self@.popups,
                id,
            ) by {}
        }
    }
}

// Beginning.

/// How urgent each trigger is, and how urgent the current job is.
#[derive(Clone, Copy, Debug, PartialEq, Eq, Structural)]
pub struct Priorities {
    pub selection: u8,
    pub manual: u8,
    pub hover: u8,
    pub active: Option<u8>,
}

impl Priorities {
    pub open spec fn of(self, trigger: TriggerKind) -> u8 {
        match trigger {
            TriggerKind::Selection => self.selection,
            TriggerKind::Manual => self.manual,
            TriggerKind::Hover => self.hover,
        }
    }

    pub fn rank(&self, trigger: TriggerKind) -> (rank: u8)
        ensures
            rank == self.of(trigger),
    {
        match trigger {
            TriggerKind::Selection => self.selection,
            TriggerKind::Manual => self.manual,
            TriggerKind::Hover => self.hover,
        }
    }
}

/// What a new request leads to.
#[derive(Debug, PartialEq, Eq)]
pub enum BeginOutcome {
    Ignored,
    /// Show an error at a place.
    LocalError { anchor: ScreenPoint, message: String },
    /// Extract the text.
    Extract(ExtractionRequest),
}

/// Where a popup goes: at the pointer of the request, or else at the cursor.
pub open spec fn anchor_at(pointer: Option<ScreenPoint>, cursor: Option<ScreenPoint>) -> ScreenPoint {
    match (pointer, cursor) {
        (Some(point), _) => point,
        (None, Some(point)) => point,
        (None, None) => ScreenPoint { x: 0, y: 0 },
    }
}

pub fn request_anchor(pointer: Option<ScreenPoint>, cursor: Option<ScreenPoint>) -> (anchor:
    ScreenPoint)
    ensures
        anchor == anchor_at(pointer, cursor),
{
    match pointer {
        Some(point) => point,
        None => match cursor {
            Some(point) => point,
            None => ScreenPoint::new(0, 0),
        },
    }
}

impl ShellModel {
    /// A new request is turned away before anything else is looked at.
    pub open spec fn turns_away(self, trigger: TriggerKind) -> bool {
        self.rest_enabled || self.startup_error is Some || self.choice is Some && trigger
            == TriggerKind::Hover
    }

    /// The state once an open choice of profile gave way to a new request.
    pub open spec fn without_choice(self) -> ShellModel {
        match self.choice {
            Some(choice) => self.without_popup(choice.popup_id),
            None => self,
        }
    }

    pub open spec fn choice_removal(self) -> Seq<ShellAction> {
        match self.choice {
            Some(choice) => self.removal_actions(choice.popup_id, true),
            None => seq![],
        }
    }

    /// Something more urgent than the trigger is pending or current.
    pub open spec fn outranks(self, trigger: TriggerKind, priorities: Priorities) -> bool {
        ||| self.pending matches Some(pending) && priorities.of(pending.spec.trigger)
            > priorities.of(trigger)
        ||| priorities.active matches Some(active) && active > priorities.of(trigger)
    }

    /// A new request is taken.
    pub open spec fn takes(self, trigger: TriggerKind, priorities: Priorities) -> bool {
        !self.turns_away(trigger) && !self.without_choice().outranks(trigger, priorities)
    }

    /// The state once the work that a new request replaces was given up.
    pub open spec fn making_room(self, spec: RequestSpec) -> ShellModel {
        if spec.trigger == TriggerKind::Manual || spec.bypass_duplicate_suppression {
            self.without_choice().without_work()
        } else {
            self.without_choice().without_pending()
        }
    }

    pub open spec fn room_actions(self, spec: RequestSpec) -> Seq<ShellAction> {
        self.choice_removal() + if spec.trigger == TriggerKind::Manual
            || spec.bypass_duplicate_suppression {
            self.without_choice().work_cancellation()
        } else {
            seq![ShellAction::CancelExtraction]
        }
    }

    /// What follows from a request: `after` is the state, `outcome` what it
    /// led to and `taken` the request that is pending.
    pub open spec fn begins(
        self,
        after: ShellModel,
        spec: RequestSpec,
        prompt: Seq<char>,
        cursor: Option<ScreenPoint>,
        priorities: Priorities,
        outcome: BeginOutcome,
    ) -> bool {
        if self.turns_away(spec.trigger) {
            &&& after == self
            &&& match outcome {
                BeginOutcome::LocalError { anchor, message } => {
                    &&& !self.rest_enabled
                    &&& spec.trigger == TriggerKind::Manual
                    &&& self.startup_error == Some(message@)
                    &&& anchor == anchor_at(spec.pointer, cursor)
                },
                BeginOutcome::Ignored => self.rest_enabled || self.startup_error is None
                    || spec.trigger != TriggerKind::Manual,
                BeginOutcome::Extract(_) => false,
            }
        } else if !self.takes(spec.trigger, priorities) {
            after == self.without_choice() && outcome == BeginOutcome::Ignored
        } else {
            &&& after == (ShellModel {
                pending: after.pending,
                next_attempt: crate::mouse::next_generation(self.next_attempt),
                ..self.making_room(spec)
            })
            &&& after.pending matches Some(pending) && {
                &&& pending.attempt == self.next_attempt
                &&& pending.config_generation == self.config_generation
                &&& reprompted(spec, pending.spec, prompt)
            }
            &&& outcome == BeginOutcome::Extract(
                ExtractionRequest {
                    attempt: self.next_attempt,
                    trigger: spec.trigger,
                    process_id: spec.process_id,
                    source_root_window: spec.source_root_window,
                    pointer: spec.pointer,
                    selection_rect: spec.selection_rect,
                },
            )
        }
    }

    /// The actions that a request takes before its text is extracted.
    pub open spec fn begin_actions(self, spec: RequestSpec, priorities: Priorities) -> Seq<
        ShellAction,
    > {
        if self.turns_away(spec.trigger) {
            seq![]
        } else if !self.takes(spec.trigger, priorities) {
            self.choice_removal()
        } else {
            self.room_actions(spec)
        }
    }
}

impl Shell {
    /// Begins a request, unless the user rests, the configuration is faulty or
    /// something more urgent is under way. An open choice of profile gives way
    /// to everything but a hover. A new request has no destination, and only a
    /// hover reads from a popup.
    pub fn begin_request(
        &mut self,
        spec: RequestSpec,
        default_prompt: &str,
        cursor: Option<ScreenPoint>,
        priorities: Priorities,
        actions: &mut Vec<ShellAction>,
    ) -> (outcome: BeginOutcome)
        requires
            old(self)@.wf(),
            old(self)@.refers_to_live(spec),
            spec.destination_popup_id is None,
            spec.trigger != TriggerKind::Hover ==> spec.source_popup_id is None,
        ensures
            old(self)@.begins(
                final(self)@,
                spec,
                old(self)@.selected_prompt(default_prompt@),
                cursor,
                priorities,
                outcome,
            ),
            final(actions)@ == old(actions)@ + old(self)@.begin_actions(spec, priorities),
            final(self)@.wf(),
    {
        let ghost before = self@;
        let trigger: TriggerKind = spec.trigger;
        proof {
            assert(actions@ =~= actions@ + Seq::<ShellAction>::empty());
        }
        if !translation_enabled(self.rest_enabled) {
            return BeginOutcome::Ignored;
        }
        if let Some(error) = &self.startup_error {
            if trigger == TriggerKind::Manual {
                return BeginOutcome::LocalError {
                    anchor: request_anchor(spec.pointer, cursor),
                    message: error.clone(),
                };
            }
            return BeginOutcome::Ignored;
        }
        let chooser: Option<PopupId> = match &self.pending_profile_choice {
            Some(choice) => Some(choice.popup_id),
            None => None,
        };
        if let Some(id) = chooser {
            if trigger == TriggerKind::Hover {
                return BeginOutcome::Ignored;
            }
            self.remove_popup(id, true, actions);
        }
        let ghost open = self@;
        proof {
            assert(open == before.without_choice());
            assert(actions@ =~= old(actions)@ + before.choice_removal());
            assert(open.refers_to_live(spec));
        }
        let mut spec: RequestSpec = spec;
        let ghost requested = spec;
        spec.prompt_id = self.selected_prompt_id(default_prompt);
        let rank: u8 = priorities.rank(trigger);
        if let Some(pending) = &self.pending {
            if priorities.rank(pending.spec.trigger) > rank {
                return BeginOutcome::Ignored;
            }
        }
        if let Some(active) = priorities.active {
            if active > rank {
                return BeginOutcome::Ignored;
            }
        }
        let ghost noted = actions@;
        match candidate_cancellation(trigger, spec.bypass_duplicate_suppression) {
            CandidateCancellation::AllInflight => {
                self.cancel_inflight_work(actions);
            },
            CandidateCancellation::ExtractionOnly => {
                self.cancel_pending_extraction(actions);
            },
        }
        proof {
            lemma_cancelling_keeps_what_is_shown(open);
            assert(actions@ =~= old(actions)@ + before.room_actions(requested));
        }
        let attempt: u64 = self.next_attempt;
        self.next_attempt = attempt.wrapping_add(1);
        let request: ExtractionRequest = ExtractionRequest {
            attempt,
            trigger,
            process_id: spec.process_id,
            source_root_window: spec.source_root_window,
            pointer: spec.pointer,
            selection_rect: spec.selection_rect,
        };
        self.pending = Some(
            PendingAttempt { attempt, spec, config_generation: self.config_generation },
        );
        proof {
            assert forall|id: PopupId| is_registered(open.popups, id) implies is_registered(
                self@.popups,
                id,
            ) by {}
            assert(self@.wf());
        }
        BeginOutcome::Extract(request)
    }

    /// A mouse gesture asks for a translation. A hover over the output of a
    /// completed result reads from that popup, `over`, and inherits its guard.
    pub fn observe_trigger(
        &mut self,
        trigger: MouseTrigger,
        over: Option<PopupId>,
        foreground_root: isize,
        default_prompt: &str,
        cursor: Option<ScreenPoint>,
        priorities: Priorities,
        actions: &mut Vec<ShellAction>,
    ) -> (outcome: BeginOutcome)
        requires
            old(self)@.wf(),
            old(self)@.is_live(over),
        ensures
            ({
                let spec = gesture_spec(old(self)@, trigger, over, foreground_root);
                let remembering = if old(self)@.rest_enabled {
                    old(self)@
                } else {
                    ShellModel {
                        last_selection_rect: match trigger {
                            MouseTrigger::Selection { rect: Some(rect), source_root_window, .. } => {
                                Some((rect, source_root_window))
                            },
                            MouseTrigger::Selection { .. } => None,
                            MouseTrigger::Hover { .. } => old(self)@.last_selection_rect,
                        },
                        ..old(self)@
                    }
                };
                &&& exists|requested: RequestSpec| #[trigger]
                    same_but_prompt(requested, spec) && remembering.begins(
                        final(self)@,
                        requested,
                        old(self)@.selected_prompt(default_prompt@),
                        cursor,
                        priorities,
                        outcome,
                    ) && final(actions)@ == old(actions)@ + remembering.begin_actions(
                        requested,
                        priorities,
                    )
            }),
            final(self)@.wf(),
    {
        let ghost before = self@;
        let ghost wanted = gesture_spec(before, trigger, over, foreground_root);
        if !translation_enabled(self.rest_enabled) {
            proof {
                assert(same_but_prompt(wanted, wanted));
                assert(actions@ =~= actions@ + Seq::<ShellAction>::empty());
            }
            return BeginOutcome::Ignored;
        }
        let (kind, point, process_id, source_root_window, rect): (
            TriggerKind,
            ScreenPoint,
            u32,
            isize,
            Option<ScreenRect>,
        ) = match trigger {
            MouseTrigger::Selection { pointer, process_id, source_root_window, rect } => (
                TriggerKind::Selection,
                pointer,
                process_id,
                source_root_window,
                rect,
            ),
            MouseTrigger::Hover { pointer, process_id, source_root_window } => (
                TriggerKind::Hover,
                pointer,
                process_id,
                source_root_window,
                None,
            ),
        };
        if kind == TriggerKind::Selection {
            self.last_selection_rect = match rect {
                Some(rect) => Some((rect, source_root_window)),
                None => None,
            };
        }
        let source_popup_id: Option<PopupId> = if kind == TriggerKind::Hover {
            over
        } else {
            None
        };
        let guard: isize = match source_popup_id {
            Some(id) => match self.popup_index(id) {
                Some(index) => self.popups[index].guard_root_window,
                None => foreground_root,
            },
            None => foreground_root,
        };
        let spec: RequestSpec = RequestSpec {
            trigger: kind,
            process_id,
            source_root_window,
            foreground_guard_root_window: guard,
            pointer: Some(point),
            selection_rect: rect,
            prompt_id: String::new(),
            bypass_duplicate_suppression: false,
            source_popup_id,
            destination_popup_id: None,
        };
        proof {
            assert forall|id: PopupId| is_registered(before.popups, id) implies is_registered(
                self@.popups,
                id,
            ) by {}
            assert(self@.wf());
            assert(same_but_prompt(spec, wanted));
        }
        self.begin_request(spec, default_prompt, cursor, priorities, actions)
    }

    /// The manual hotkey asks for a translation of the foreground application;
    /// a selection that was made in it is remembered.
    pub fn observe_manual(
        &mut self,
        process_id: u32,
        source_root_window: isize,
        cursor: Option<ScreenPoint>,
        default_prompt: &str,
        priorities: Priorities,
        actions: &mut Vec<ShellAction>,
    ) -> (outcome: BeginOutcome)
        requires
            old(self)@.wf(),
        ensures
            exists|requested: RequestSpec| #[trigger]
                same_but_prompt(
                    requested,
                    manual_spec(old(self)@, process_id, source_root_window, cursor),
                ) && old(self)@.begins(
                    final(self)@,
                    requested,
                    old(self)@.selected_prompt(default_prompt@),
                    cursor,
                    priorities,
                    outcome,
                ) && final(actions)@ == old(actions)@ + old(self)@.begin_actions(
                    requested,
                    priorities,
                ),
            final(self)@.wf(),
    {
        let ghost wanted = manual_spec(self@, process_id, source_root_window, cursor);
        let spec: RequestSpec = RequestSpec {
            trigger: TriggerKind::Manual,
            process_id,
            source_root_window,
            foreground_guard_root_window: source_root_window,
            pointer: cursor,
            selection_rect: selection_rect_for_root(self.last_selection_rect, source_root_window),
            prompt_id: String::new(),
            bypass_duplicate_suppression: false,
            source_popup_id: None,
            destination_popup_id: None,
        };
        proof {
            assert(same_but_prompt(spec, wanted));
        }
        self.begin_request(spec, default_prompt, cursor, priorities, actions)
    }
}

/// The requests differ at most in their prompts.
pub open spec fn same_but_prompt(a: RequestSpec, b: RequestSpec) -> bool {
    a == (RequestSpec { prompt_id: a.prompt_id, ..b })
}

/// The request that a mouse gesture stands for; its prompt is chosen later.
pub open spec fn gesture_spec(
    state: ShellModel,
    trigger: MouseTrigger,
    over: Option<PopupId>,
    foreground_root: isize,
) -> RequestSpec {
    match trigger {
        MouseTrigger::Selection { pointer, process_id, source_root_window, rect } => RequestSpec {
            trigger: TriggerKind::Selection,
            process_id,
            source_root_window,
            foreground_guard_root_window: foreground_root,
            pointer: Some(pointer),
            selection_rect: rect,
            prompt_id: arbitrary(),
            bypass_duplicate_suppression: false,
            source_popup_id: None,
            destination_popup_id: None,
        },
        MouseTrigger::Hover { pointer, process_id, source_root_window } => RequestSpec {
            trigger: TriggerKind::Hover,
            process_id,
            source_root_window,
            foreground_guard_root_window: match over {
                Some(id) => match popup_position(state.popups, id) {
                    Some(i) => state.popups[i].guard_root_window,
                    None => foreground_root,
                },
                None => foreground_root,
            },
            pointer: Some(pointer),
            selection_rect: None,
            prompt_id: arbitrary(),
            bypass_duplicate_suppression: false,
            source_popup_id: over,
            destination_popup_id: None,
        },
    }
}

/// The request that the manual hotkey stands for; its prompt is chosen later.
pub open spec fn manual_spec(
    state: ShellModel,
    process_id: u32,
    source_root_window: isize,
    cursor: Option<ScreenPoint>,
) -> RequestSpec {
    RequestSpec {
        trigger: TriggerKind::Manual,
        process_id,
        source_root_window,
        foreground_guard_root_window: source_root_window,
        pointer: cursor,
        selection_rect: match state.last_selection_rect {
            Some((rect, root)) => if root != 0 && root == source_root_window {
                Some(rect)
            } else {
                None
            },
            None => None,
        },
        prompt_id: arbitrary(),
        bypass_duplicate_suppression: false,
        source_popup_id: None,
        destination_popup_id: None,
    }
}

/// The rank of a trigger, read off the list.
pub open spec fn ranked(priorities: Priorities, trigger: TriggerKind, rank: u8) -> bool {
    &&& trigger == TriggerKind::Manual ==> rank == priorities.manual
    &&& trigger == TriggerKind::Selection ==> rank == priorities.selection
    &&& trigger == TriggerKind::Hover ==> rank == priorities.hover
}

/// A request yields only to what is more urgent. Where nothing rests, is faulty
/// or waits for a choice, a request that ranks at least as high as the pending
/// attempt and as the active job is extracted and takes the pending one's place;
/// one that ranks lower than either is ignored and leaves everything as it was.
pub proof fn lemma_requests_yield_only_to_more_urgent_ones(
    state: ShellModel,
    after: ShellModel,
    spec: RequestSpec,
    prompt: Seq<char>,
    cursor: Option<ScreenPoint>,
    priorities: Priorities,
    outcome: BeginOutcome,
    rank: u8,
    pending_rank: u8,
)
    requires
        state.begins(after, spec, prompt, cursor, priorities, outcome),
        !state.rest_enabled,
        state.startup_error is None,
        state.choice is None,
        ranked(priorities, spec.trigger, rank),
        state.pending matches Some(pending) ==> ranked(
            priorities,
            pending.spec.trigger,
            pending_rank,
        ),
    ensures
        (state.pending is Some && pending_rank > rank) || (priorities.active matches Some(active)
            && active > rank) ==> outcome == BeginOutcome::Ignored && after == state,
        (state.pending is None || pending_rank <= rank) && (priorities.active matches Some(active)
            ==> active <= rank) ==> {
            &&& outcome matches BeginOutcome::Extract(request)
            &&& request.attempt == state.next_attempt
            &&& request.trigger == spec.trigger
            &&& request.process_id == spec.process_id
            &&& request.source_root_window == spec.source_root_window
            &&& request.pointer == spec.pointer
            &&& request.selection_rect == spec.selection_rect
            &&& after.pending matches Some(pending)
            &&& pending.attempt == request.attempt
            &&& pending.spec.trigger == spec.trigger
            &&& pending.spec.prompt_id@ == prompt
            &&& pending.config_generation == state.config_generation
        },
{
}

/// Each attempt has a number of its own: the next request after one that was
/// extracted gets another.
pub proof fn lemma_attempts_are_numbered_anew(
    state: ShellModel,
    after: ShellModel,
    spec: RequestSpec,
    prompt: Seq<char>,
    cursor: Option<ScreenPoint>,
    priorities: Priorities,
    outcome: BeginOutcome,
)
    requires
        state.begins(after, spec, prompt, cursor, priorities, outcome),
    ensures
        outcome is Extract ==> after.next_attempt != state.next_attempt && (state.next_attempt
            < u64::MAX ==> after.next_attempt == state.next_attempt + 1),
        !(outcome is Extract) ==> after.next_attempt == state.next_attempt,
{
}

/// A faulty configuration is told to an explicit request only, in its own words,
/// where the request points, and else at the cursor.
pub proof fn lemma_a_fault_is_told_to_the_hotkey(
    state: ShellModel,
    after: ShellModel,
    spec: RequestSpec,
    prompt: Seq<char>,
    cursor: Option<ScreenPoint>,
    priorities: Priorities,
    outcome: BeginOutcome,
)
    requires
        state.begins(after, spec, prompt, cursor, priorities, outcome),
        !state.rest_enabled,
        state.startup_error is Some,
    ensures
        after == state,
        spec.trigger != TriggerKind::Manual ==> outcome == BeginOutcome::Ignored,
        spec.trigger == TriggerKind::Manual ==> {
            &&& outcome matches BeginOutcome::LocalError { anchor, message }
            &&& message@ == state.startup_error.unwrap()
            &&& spec.pointer matches Some(point) ==> anchor == point
            &&& spec.pointer is None ==> (cursor matches Some(point) ==> anchor == point)
        },
{
}

/// An open choice of profile is closed by a selection and by the hotkey, with the
/// popup that shows it, and a hover leaves it alone.
pub proof fn lemma_a_choice_gives_way_to_all_but_a_hover(
    state: ShellModel,
    after: ShellModel,
    spec: RequestSpec,
    prompt: Seq<char>,
    cursor: Option<ScreenPoint>,
    priorities: Priorities,
    outcome: BeginOutcome,
)
    requires
        state.wf(),
        state.begins(after, spec, prompt, cursor, priorities, outcome),
        !state.rest_enabled,
        state.startup_error is None,
        state.choice is Some,
    ensures
        spec.trigger == TriggerKind::Hover ==> outcome == BeginOutcome::Ignored && after == state,
        spec.trigger != TriggerKind::Hover ==> after.choice is None && !is_registered(
            after.popups,
            state.choice.unwrap().popup_id,
        ),
{
    lemma_removal_leaves_no_reference(state, state.choice.unwrap().popup_id);
    lemma_cancelling_keeps_what_is_shown(state.without_choice());
}

/// The hotkey gives up the running request at once; an automatic request leaves it
/// running until it is admitted itself.
pub proof fn lemma_only_the_hotkey_gives_up_the_running_request(
    state: ShellModel,
    after: ShellModel,
    spec: RequestSpec,
    prompt: Seq<char>,
    cursor: Option<ScreenPoint>,
    priorities: Priorities,
    outcome: BeginOutcome,
)
    requires
        state.begins(after, spec, prompt, cursor, priorities, outcome),
        state.choice is None,
        outcome is Extract,
        !spec.bypass_duplicate_suppression,
    ensures
        spec.trigger == TriggerKind::Manual ==> after.active_request is None
            && !after.provider_active && state.begin_actions(spec, priorities).contains(
            ShellAction::CancelExtraction,
        ) && (state.provider_active ==> state.begin_actions(spec, priorities).contains(
            ShellAction::CancelProvider,
        )),
        spec.trigger != TriggerKind::Manual ==> after.active_request == state.active_request
            && after.provider_active == state.provider_active && after.active_popup_id
            == state.active_popup_id && after.popup_job_id == state.popup_job_id
            && after.stream_output == state.stream_output && !state.begin_actions(
            spec,
            priorities,
        ).contains(ShellAction::CancelProvider),
        after.popups == state.popups,
{
    let actions = state.begin_actions(spec, priorities);
    if spec.trigger == TriggerKind::Manual {
        assert(actions =~= state.work_cancellation());
        assert(actions[0] == ShellAction::CancelExtraction);
        if state.provider_active {
            assert(actions[1] == ShellAction::CancelProvider);
        }
    } else {
        assert(actions =~= seq![ShellAction::CancelExtraction]);
    }
}

/// While the user rests no request begins, whatever asks for it.
pub proof fn lemma_rest_mode_begins_nothing(
    state: ShellModel,
    after: ShellModel,
    spec: RequestSpec,
    prompt: Seq<char>,
    cursor: Option<ScreenPoint>,
    priorities: Priorities,
    outcome: BeginOutcome,
)
    requires
        state.rest_enabled,
        state.begins(after, spec, prompt, cursor, priorities, outcome),
    ensures
        after == state,
        outcome == BeginOutcome::Ignored,
        state.begin_actions(spec, priorities) == Seq::<ShellAction>::empty(),
{
}

/// An automatic request is only a candidate: until it has a text, the running
/// request, its popup and its stream go on.
pub proof fn lemma_automatic_request_keeps_the_running_one(
    state: ShellModel,
    spec: RequestSpec,
)
    requires
        state.choice is None,
        spec.trigger != TriggerKind::Manual,
        !spec.bypass_duplicate_suppression,
    ensures
        state.making_room(spec) == state.without_pending(),
        state.room_actions(spec) == seq![ShellAction::CancelExtraction],
{
    assert(state.room_actions(spec) =~= seq![ShellAction::CancelExtraction]);
}

// The text has come.

/// Takes the pending attempt if it is the one asked for, under the current
/// configuration; otherwise leaves it.
pub fn take_matching_pending(
    slot: &mut Option<PendingAttempt>,
    attempt: u64,
    trigger: TriggerKind,
    config_generation: u64,
) -> (taken: Option<PendingAttempt>)
    ensures
        if pending_matches(*old(slot), attempt, trigger, config_generation) {
            taken == *old(slot) && *final(slot) is None
        } else {
            taken is None && *final(slot) == *old(slot)
        },
{
    let matching: bool = match &*slot {
        Some(pending) => pending.attempt == attempt && pending.spec.trigger == trigger
            && pending.config_generation == config_generation,
        None => false,
    };
    if !matching {
        return None;
    }
    slot.take()
}

pub open spec fn pending_matches(
    slot: Option<PendingAttempt>,
    attempt: u64,
    trigger: TriggerKind,
    config_generation: u64,
) -> bool {
    slot matches Some(pending) && pending.attempt == attempt && pending.spec.trigger == trigger
        && pending.config_generation == config_generation
}

/// A request with its text, ready to be admitted.
#[derive(Debug, PartialEq, Eq)]
pub struct ExtractedRequest {
    pub pending: PendingAttempt,
    pub text: TextContext,
    pub anchor: ScreenPoint,
}

/// What the end of an extraction leads to.
#[derive(Debug, PartialEq, Eq)]
pub enum ExtractionOutcome {
    Ignored,
    LocalError { anchor: ScreenPoint, message: String },
    /// Ask whether the content of the selection is in order, before any window
    /// is looked for.
    Prepare(ExtractedRequest),
    /// Let the user choose a profile.
    Choose(ExtractedRequest),
    /// Admit the request.
    Admit(ExtractedRequest),
}

/// An extraction that ended.
#[derive(Debug, PartialEq, Eq)]
pub struct ExtractionCompleted {
    pub attempt: u64,
    pub trigger: TriggerKind,
    pub pointer: Option<ScreenPoint>,
    pub selection_rect: Option<ScreenRect>,
    pub result: ExtractionResult,
}

/// A text with the selected rectangle as its place, where it has none.
pub open spec fn placed_text(text: TextContext, selection_rect: Option<ScreenRect>) -> TextContext {
    TextContext {
        screen_rect: if text.screen_rect is None {
            selection_rect
        } else {
            text.screen_rect
        },
        ..text
    }
}

impl ShellModel {
    /// What follows from the end of an extraction.
    pub open spec fn extraction_leads_to(
        self,
        event: ExtractionCompleted,
        cursor: Option<ScreenPoint>,
        outcome: ExtractionOutcome,
    ) -> bool {
        let anchor = anchor_at(event.pointer, cursor);
        let manual = event.trigger == TriggerKind::Manual;
        if !pending_matches(self.pending, event.attempt, event.trigger, self.config_generation) {
            outcome == ExtractionOutcome::Ignored
        } else if self.startup_error is Some || event.result is Err {
            match outcome {
                ExtractionOutcome::LocalError { anchor: at, message } => {
                    &&& manual
                    &&& at == anchor
                    &&& message@ == match (self.startup_error, event.result) {
                        (Some(error), _) => error,
                        (None, Err(failure)) => extraction_error_text(failure),
                        (None, Ok(_)) => Seq::empty(),
                    }
                },
                ExtractionOutcome::Ignored => !manual,
                _ => false,
            }
        } else {
            let request = ExtractedRequest {
                pending: self.pending.unwrap(),
                text: placed_text(event.result->Ok_0, event.selection_rect),
                anchor,
            };
            outcome == if event.trigger == TriggerKind::Selection {
                ExtractionOutcome::Prepare(request)
            } else {
                ExtractionOutcome::Admit(request)
            }
        }
    }

    /// The state after the end of an extraction: only the pending attempt that
    /// it belongs to is consumed.
    pub open spec fn after_extraction(self, event: ExtractionCompleted) -> ShellModel {
        if pending_matches(self.pending, event.attempt, event.trigger, self.config_generation) {
            self.without_pending()
        } else {
            self
        }
    }
}

impl Shell {
    /// An extraction ended. Only the current candidate counts; the text of a
    /// selection is prepared before it is offered, any other goes to admission,
    /// and a manual failure is shown.
    pub fn handle_extraction(&mut self, event: ExtractionCompleted, cursor: Option<ScreenPoint>) -> (outcome:
        ExtractionOutcome)
        requires
            old(self)@.wf(),
        ensures
            old(self)@.extraction_leads_to(event, cursor, outcome),
            final(self)@ == old(self)@.after_extraction(event),
            final(self)@.wf(),
    {
        proof {
            lemma_cancelling_keeps_what_is_shown(self@);
        }
        let manual: bool = event.trigger == TriggerKind::Manual;
        let generation: u64 = self.config_generation;
        let pending: PendingAttempt = match take_matching_pending(
            &mut self.pending,
            event.attempt,
            event.trigger,
            generation,
        ) {
            Some(pending) => pending,
            None => {
                return ExtractionOutcome::Ignored;
            },
        };
        let anchor: ScreenPoint = request_anchor(event.pointer, cursor);
        if let Some(error) = &self.startup_error {
            return if manual {
                ExtractionOutcome::LocalError { anchor, message: error.clone() }
            } else {
                ExtractionOutcome::Ignored
            };
        }
        match event.result {
            Err(failure) => if manual {
                ExtractionOutcome::LocalError {
                    anchor,
                    message: copy_of(extraction_error(failure)),
                }
            } else {
                ExtractionOutcome::Ignored
            },
            Ok(text) => {
                let mut text: TextContext = text;
                if text.screen_rect.is_none() {
                    text.screen_rect = event.selection_rect;
                }
                let request: ExtractedRequest = ExtractedRequest { pending, text, anchor };
                if event.trigger == TriggerKind::Selection {
                    ExtractionOutcome::Prepare(request)
                } else {
                    ExtractionOutcome::Admit(request)
                }
            },
        }
    }
}

/// A late report of an extraction that was replaced, cancelled, or made under
/// another configuration consumes nothing and leads to nothing.
pub proof fn lemma_stale_extraction_consumes_nothing(
    state: ShellModel,
    event: ExtractionCompleted,
    cursor: Option<ScreenPoint>,
    outcome: ExtractionOutcome,
)
    requires
        !pending_matches(state.pending, event.attempt, event.trigger, state.config_generation),
        state.extraction_leads_to(event, cursor, outcome),
    ensures
        outcome == ExtractionOutcome::Ignored,
        state.after_extraction(event) == state,
{
}

/// The content of a selection is, or is not, in order. Profiles are offered for
/// it only where it is; a selection that is refused stays silent.
pub fn offer_selection(request: ExtractedRequest, prepared: Result<(), RequestRejection>) -> (outcome:
    ExtractionOutcome)
    ensures
        outcome == if prepared is Ok {
            ExtractionOutcome::Choose(request)
        } else {
            ExtractionOutcome::Ignored
        },
{
    match prepared {
        Ok(()) => ExtractionOutcome::Choose(request),
        Err(_) => ExtractionOutcome::Ignored,
    }
}

/// Without a text nothing is prepared, offered or admitted. No extraction by
/// itself offers a profile: the text of a selection is always prepared first.
pub proof fn lemma_no_text_no_request(
    state: ShellModel,
    event: ExtractionCompleted,
    cursor: Option<ScreenPoint>,
    outcome: ExtractionOutcome,
)
    requires
        state.extraction_leads_to(event, cursor, outcome),
    ensures
        event.result is Err ==> outcome is Ignored || outcome is LocalError,
        !(outcome is Choose),
        event.trigger == TriggerKind::Selection ==> !(outcome is Admit),
{
}

// Choosing a profile.

/// The profiles in the order in which they are offered.
#[derive(Debug, PartialEq, Eq)]
pub struct ProfileChoices {
    pub ids: Vec<String>,
    pub names: Vec<String>,
}

impl Shell {
    /// The profiles to offer: identifiers and names in the same order.
    pub fn profile_choices(&self) -> (choices: ProfileChoices)
        ensures
            views(choices.ids@) == chooser_order(self@.config.profiles).map_values(
                |i: usize| self@.config.profiles[i as int].id,
            ),
            views(choices.names@) == chooser_order(self@.config.profiles).map_values(
                |i: usize| self@.config.profiles[i as int].name,
            ),
    {
        let ghost models = self@.config.profiles;
        let count: usize = self.config.profiles.len();
        let ordered: Vec<usize> = profile_chooser_order(self.config.profiles.as_slice());
        proof {
            assert(models.len() == count);
            crate::popups::lemma_chooser_order_is_a_permutation(models);
        }
        let mut ids: Vec<String> = Vec::new();
        let mut names: Vec<String> = Vec::new();
        let mut k: usize = 0;
        while k < ordered.len()
            invariant
                k <= ordered@.len(),
                models == prompt_models(self.config.profiles@),
                ordered@ == chooser_order(models),
                forall|i: usize| i < models.len() <==> ordered@.contains(i),
                ids@.len() == k,
                names@.len() == k,
                forall|j: int|
                    0 <= j < k ==> (#[trigger] ids@[j])@ == models[ordered@[j] as int].id,
                forall|j: int|
                    0 <= j < k ==> (#[trigger] names@[j])@ == models[ordered@[j] as int].name,
            decreases ordered@.len() - k,
        {
            let index: usize = ordered[k];
            proof {
                assert(ordered@.contains(index));
                assert(models[index as int] == self.config.profiles@[index as int]@);
            }
            ids.push(self.config.profiles[index].id.clone());
            names.push(self.config.profiles[index].name.clone());
            k = k + 1;
        }
        proof {
            assert(views(ids@) =~= chooser_order(models).map_values(
                |i: usize| models[i as int].id,
            ));
            assert(views(names@) =~= chooser_order(models).map_values(
                |i: usize| models[i as int].name,
            ));
        }
        ProfileChoices { ids, names }
    }

    /// The profiles were, or were not, offered in a popup. Returns whether the
    /// user is to be told that no window could be opened; that is said once.
    pub fn offer_profiles(
        &mut self,
        popup_id: Option<PopupId>,
        shown: bool,
        request: ExtractedRequest,
        profile_ids: Vec<String>,
        actions: &mut Vec<ShellAction>,
    ) -> (report: bool)
        requires
            old(self)@.wf(),
            !old(self)@.rest_enabled,
            shown ==> popup_id is Some,
            old(self)@.is_live(popup_id),
        ensures
            report == (!shown && !old(self)@.popup_failure_reported),
            final(self)@ == if shown {
                ShellModel {
                    popup_failure_reported: false,
                    popup_job_id: None,
                    presented_trigger: Some(TriggerKind::Selection),
                    popup_guard_root_window: request.pending.spec.foreground_guard_root_window,
                    choice: Some(
                        PendingProfileChoice {
                            popup_id: popup_id.unwrap(),
                            pending: request.pending,
                            text: request.text,
                            anchor: request.anchor,
                            profile_ids,
                        },
                    ),
                    ..old(self)@
                }
            } else {
                ShellModel {
                    popup_failure_reported: true,
                    ..match popup_id {
                        Some(id) => old(self)@.without_popup(id),
                        None => old(self)@,
                    }
                }
            },
            final(actions)@ == match popup_id {
                Some(id) if !shown => old(actions)@ + old(self)@.removal_actions(id, true),
                _ => old(actions)@,
            },
            final(self)@.wf(),
    {
        let ghost before = self@;
        if !shown {
            if let Some(id) = popup_id {
                self.remove_popup(id, true, actions);
            }
            let ghost removed = self@;
            let report: bool = !self.popup_failure_reported;
            self.popup_failure_reported = true;
            proof {
                assert forall|id: PopupId| is_registered(removed.popups, id) implies is_registered(
                    self@.popups,
                    id,
                ) by {}
            }
            return report;
        }
        if let Some(id) = popup_id {
            self.popup_failure_reported = false;
            self.popup_job_id = None;
            self.presented_trigger = Some(TriggerKind::Selection);
            self.popup_guard_root_window = request.pending.spec.foreground_guard_root_window;
            self.pending_profile_choice = Some(
                PendingProfileChoice {
                    popup_id: id,
                    pending: request.pending,
                    text: request.text,
                    anchor: request.anchor,
                    profile_ids,
                },
            );
        }
        proof {
            assert forall|id: PopupId| is_registered(before.popups, id) implies is_registered(
                self@.popups,
                id,
            ) by {}
        }
        false
    }

    /// The profile at a visible index was chosen in a popup. The choice counts
    /// only in the popup that offers it and under the configuration that it was
    /// made of. Returns the request to admit.
    pub fn begin_selected_profile(
        &mut self,
        popup_id: PopupId,
        profile_index: usize,
        actions: &mut Vec<ShellAction>,
    ) -> (request: Option<ExtractedRequest>)
        requires
            old(self)@.wf(),
        ensures
            match chosen_profile(old(self)@, popup_id, profile_index) {
                None => {
                    &&& request is None
                    &&& final(self)@ == old(self)@
                    &&& final(actions)@ == old(actions)@
                },
                Some(id) => {
                    let choice = old(self)@.choice.unwrap();
                    let closed = ShellModel { choice: None, ..old(self)@ };
                    if has_profile(old(self)@.config.profiles, id@) {
                        &&& final(self)@ == closed
                        &&& final(actions)@ == old(actions)@
                        &&& request == Some(
                            ExtractedRequest {
                                pending: PendingAttempt {
                                    spec: RequestSpec {
                                        prompt_id: id,
                                        bypass_duplicate_suppression: true,
                                        destination_popup_id: Some(popup_id),
                                        ..choice.pending.spec
                                    },
                                    ..choice.pending
                                },
                                text: choice.text,
                                anchor: choice.anchor,
                            },
                        )
                    } else {
                        &&& request is None
                        &&& final(self)@ == closed.without_popup(popup_id)
                        &&& final(actions)@ == old(actions)@ + closed.removal_actions(
                            popup_id,
                            true,
                        )
                    }
                },
            },
            selects_profile(old(self)@, final(self)@, popup_id, profile_index, request),
            final(actions)@ == match chosen_profile(old(self)@, popup_id, profile_index) {
                Some(id) if !has_profile(old(self)@.config.profiles, id@) => {
                    old(actions)@ + (ShellModel { choice: None, ..old(self)@ }).removal_actions(
                        popup_id,
                        true,
                    )
                },
                _ => old(actions)@,
            },
            request matches Some(made) ==> old(self)@.choice matches Some(choice) && choice.popup_id
                == popup_id && profile_index < choice.profile_ids@.len()
                && made.pending.spec.prompt_id == choice.profile_ids@[profile_index as int],
            final(self)@.wf(),
    {
        let ghost before = self@;
        let profile: Option<String> = match &self.pending_profile_choice {
            Some(choice) => if choice.popup_id == popup_id {
                profile_for_generation(
                    choice.profile_ids.as_slice(),
                    profile_index,
                    choice.pending.config_generation,
                    self.config_generation,
                )
            } else {
                None
            },
            None => None,
        };
        let profile_id: String = match profile {
            Some(id) => id,
            None => {
                return None;
            },
        };
        let choice: PendingProfileChoice = match self.pending_profile_choice.take() {
            Some(choice) => choice,
            None => {
                return None;
            },
        };
        let ghost closed = self@;
        proof {
            assert forall|id: PopupId| is_registered(before.popups, id) implies is_registered(
                closed.popups,
                id,
            ) by {}
            assert(closed.wf());
        }
        if find_profile(self.config.profiles.as_slice(), profile_id.as_str()).is_none() {
            self.remove_popup(popup_id, true, actions);
            return None;
        }
        let mut pending: PendingAttempt = choice.pending;
        pending.spec.prompt_id = profile_id;
        pending.spec.bypass_duplicate_suppression = true;
        pending.spec.destination_popup_id = Some(popup_id);
        Some(ExtractedRequest { pending, text: choice.text, anchor: choice.anchor })
    }
}

/// The profile that a click chooses, if it chooses one.
pub open spec fn chosen_profile(
    state: ShellModel,
    popup_id: PopupId,
    profile_index: usize,
) -> Option<String> {
    match state.choice {
        Some(choice) => if choice.popup_id == popup_id && choice.pending.config_generation
            == state.config_generation && profile_index < choice.profile_ids@.len() {
            Some(choice.profile_ids@[profile_index as int])
        } else {
            None
        },
        None => None,
    }
}

/// What a click on the entry number `profile_index` of a choice leads to.
pub open spec fn selects_profile(
    before: ShellModel,
    after: ShellModel,
    popup_id: PopupId,
    profile_index: usize,
    request: Option<ExtractedRequest>,
) -> bool {
    match chosen_profile(before, popup_id, profile_index) {
        None => request is None && after == before,
        Some(id) => {
            let choice = before.choice.unwrap();
            let closed = ShellModel { choice: None, ..before };
            if has_profile(before.config.profiles, id@) {
                &&& after == closed
                &&& request == Some(
                    ExtractedRequest {
                        pending: PendingAttempt {
                            spec: RequestSpec {
                                prompt_id: id,
                                bypass_duplicate_suppression: true,
                                destination_popup_id: Some(popup_id),
                                ..choice.pending.spec
                            },
                            ..choice.pending
                        },
                        text: choice.text,
                        anchor: choice.anchor,
                    },
                )
            } else {
                request is None && after == closed.without_popup(popup_id)
            }
        },
    }
}

/// A request that a click makes carries the identifier that stands at the
/// clicked place of the offered list, with the text that waited for it; an entry
/// beyond the list, another popup and a list of another configuration make none
/// and change nothing; a profile that was offered and is still configured makes
/// one.
pub proof fn lemma_a_click_picks_its_entry(
    state: ShellModel,
    after: ShellModel,
    popup_id: PopupId,
    index: usize,
    request: Option<ExtractedRequest>,
)
    requires
        selects_profile(state, after, popup_id, index, request),
    ensures
        request matches Some(made) ==> {
            &&& state.choice matches Some(choice)
            &&& choice.popup_id == popup_id
            &&& choice.pending.config_generation == state.config_generation
            &&& index < choice.profile_ids@.len()
            &&& made.pending.spec.prompt_id == choice.profile_ids@[index as int]
            &&& made.text == choice.text
            &&& made.anchor == choice.anchor
            &&& made.pending.attempt == choice.pending.attempt
            &&& made.pending.spec.trigger == choice.pending.spec.trigger
            &&& made.pending.spec.process_id == choice.pending.spec.process_id
            &&& made.pending.spec.destination_popup_id == Some(popup_id)
            &&& after.choice is None
        },
        state.choice is None ==> request is None && after == state,
        state.choice matches Some(choice) && (choice.popup_id != popup_id
            || choice.pending.config_generation != state.config_generation || index
            >= choice.profile_ids@.len()) ==> request is None && after == state,
        state.choice matches Some(choice) && choice.popup_id == popup_id
            && choice.pending.config_generation == state.config_generation && index
            < choice.profile_ids@.len() && (exists|i: int|
            0 <= i < state.config.profiles.len() && (#[trigger] state.config.profiles[i]).id
                == choice.profile_ids@[index as int]@) ==> request is Some,
        state.choice matches Some(choice) && choice.popup_id == popup_id
            && choice.pending.config_generation == state.config_generation && index
            < choice.profile_ids@.len() && (forall|i: int|
            0 <= i < state.config.profiles.len() ==> (#[trigger] state.config.profiles[i]).id
                != choice.profile_ids@[index as int]@) ==> request is None && after.choice is None,
{
    if let Some(choice) = state.choice {
        if index < choice.profile_ids@.len() {
            lemma_profile_position(
                state.config.profiles,
                choice.profile_ids@[index as int]@,
            );
        }
    }
}

/// Clicks on different entries of one choice lead to different prompts where the
/// entries have different identifiers.
pub proof fn lemma_different_entries_are_different_prompts(
    state: ShellModel,
    one_after: ShellModel,
    other_after: ShellModel,
    popup_id: PopupId,
    one: usize,
    other: usize,
    one_request: ExtractedRequest,
    other_request: ExtractedRequest,
)
    requires
        selects_profile(state, one_after, popup_id, one, Some(one_request)),
        selects_profile(state, other_after, popup_id, other, Some(other_request)),
        state.choice.unwrap().profile_ids@[one as int]@ != state.choice.unwrap().profile_ids@[other as int]@,
    ensures
        one_request.pending.spec.prompt_id@ != other_request.pending.spec.prompt_id@,
{
}

/// A selection makes no request of its own: its text waits in a choice, and a
/// request comes only from choosing one of the offered profiles.
pub proof fn lemma_selection_waits_for_a_profile(
    state: ShellModel,
    event: ExtractionCompleted,
    cursor: Option<ScreenPoint>,
    outcome: ExtractionOutcome,
)
    requires
        event.trigger == TriggerKind::Selection,
        state.extraction_leads_to(event, cursor, outcome),
    ensures
        !(outcome is Admit),
{
}

// Repeating.

/// The request aims at the popup that it is repeated in, and reads from none.
pub fn retarget_popup_replay(spec: &mut RequestSpec, popup_id: PopupId)
    ensures
        *final(spec) == (RequestSpec {
            bypass_duplicate_suppression: true,
            source_popup_id: None,
            destination_popup_id: Some(popup_id),
            ..*old(spec)
        }),
{
    spec.bypass_duplicate_suppression = true;
    spec.source_popup_id = None;
    spec.destination_popup_id = Some(popup_id);
}

/// The popup has a request and a text that can be repeated.
pub open spec fn can_replay(state: ShellModel, popup_id: PopupId) -> bool {
    popup_position(state.popups, popup_id) matches Some(i) && state.popups[i].last_request is Some
        && state.popups[i].last_text is Some
}

impl Shell {
    /// Repeats the request of a popup on the text that it was admitted with,
    /// with the next prompt if `cycle`. Returns the request to admit.
    pub fn replay_popup(
        &mut self,
        popup_id: PopupId,
        cycle: bool,
        actions: &mut Vec<ShellAction>,
    ) -> (request: Option<ExtractedRequest>)
        requires
            old(self)@.wf(),
        ensures
            ({
                let entry = old(self)@.popups[popup_position(old(self)@.popups, popup_id).unwrap()];
                let spec = entry.last_request.unwrap();
                let next = following_prompt(old(self)@.config.profiles, spec.prompt_id@);
                if !can_replay(old(self)@, popup_id) || cycle && next.len() == 0 {
                    &&& request is None
                    &&& final(self)@ == old(self)@
                    &&& final(actions)@ == old(actions)@
                } else {
                    &&& final(self)@ == (ShellModel {
                        active_prompt_id: if cycle {
                            Some(next)
                        } else {
                            old(self)@.active_prompt_id
                        },
                        ..old(self)@.without_work()
                    })
                    &&& final(actions)@ == old(actions)@ + old(self)@.work_cancellation()
                    &&& request matches Some(request) && {
                        &&& request.text == entry.last_text.unwrap()
                        &&& request.anchor == entry.anchor
                        &&& request.pending.attempt == 0
                        &&& request.pending.config_generation == old(self)@.config_generation
                        &&& reprompted(
                            RequestSpec {
                                bypass_duplicate_suppression: true,
                                source_popup_id: None,
                                destination_popup_id: Some(popup_id),
                                ..spec
                            },
                            request.pending.spec,
                            if cycle {
                                next
                            } else {
                                spec.prompt_id@
                            },
                        )
                    }
                }
            }),
            final(self)@.wf(),
    {
        let ghost before = self@;
        let index: usize = match self.popup_index(popup_id) {
            Some(index) => index,
            None => {
                return None;
            },
        };
        let entry: &PopupEntry = &self.popups[index];
        let anchor: ScreenPoint = entry.anchor;
        let mut spec: RequestSpec = match &entry.last_request {
            Some(spec) => spec.duplicate(),
            None => {
                return None;
            },
        };
        let text: TextContext = match &entry.last_text {
            Some(text) => text.duplicate(),
            None => {
                return None;
            },
        };
        if cycle {
            let next: String = next_prompt(&self.config.profiles, spec.prompt_id.as_str());
            if next.as_str().is_empty() {
                return None;
            }
            spec.prompt_id = next.clone();
            self.active_prompt_id = Some(next);
        }
        retarget_popup_replay(&mut spec, popup_id);
        let ghost prompted = self@;
        self.cancel_inflight_work(actions);
        proof {
            assert forall|id: PopupId| is_registered(before.popups, id) implies is_registered(
                self@.popups,
                id,
            ) by {}
            assert(self@.wf());
        }
        Some(
            ExtractedRequest {
                pending: PendingAttempt {
                    attempt: 0,
                    spec,
                    config_generation: self.config_generation,
                },
                text,
                anchor,
            },
        )
    }
}

/// A mouse gesture asks for the text at the pointer, of the process and window below
/// it. A selection brings its rectangle and reads from no popup; a hover reads from
/// the popup that it is over, and is guarded by the window that popup is guarded by,
/// and otherwise by the one in front.
pub proof fn lemma_a_gesture_asks_for_what_is_under_the_pointer(
    state: ShellModel,
    pointer: ScreenPoint,
    process_id: u32,
    root: isize,
    rect: Option<ScreenRect>,
    over: Option<PopupId>,
    front: isize,
    i: int,
)
    requires
        state.wf(),
    ensures
        ({
            let selection = gesture_spec(
                state,
                MouseTrigger::Selection { pointer, process_id, source_root_window: root, rect },
                over,
                front,
            );
            let hover = gesture_spec(
                state,
                MouseTrigger::Hover { pointer, process_id, source_root_window: root },
                over,
                front,
            );
            &&& selection.trigger == TriggerKind::Selection
            &&& selection.pointer == Some(pointer)
            &&& selection.process_id == process_id
            &&& selection.source_root_window == root
            &&& selection.selection_rect == rect
            &&& selection.source_popup_id is None
            &&& selection.destination_popup_id is None
            &&& selection.foreground_guard_root_window == front
            &&& !selection.bypass_duplicate_suppression
            &&& hover.trigger == TriggerKind::Hover
            &&& hover.pointer == Some(pointer)
            &&& hover.process_id == process_id
            &&& hover.source_root_window == root
            &&& hover.selection_rect is None
            &&& hover.source_popup_id == over
            &&& hover.destination_popup_id is None
            &&& !hover.bypass_duplicate_suppression
            &&& over is None ==> hover.foreground_guard_root_window == front
            &&& 0 <= i < state.popups.len() && over == Some(state.popups[i].id)
                ==> hover.foreground_guard_root_window == state.popups[i].guard_root_window
        }),
{
    if 0 <= i < state.popups.len() {
        let id = state.popups[i].id;
        crate::shell::lemma_popup_position(state.popups, id);
        assert(is_registered(state.popups, id));
        let at = popup_position(state.popups, id).unwrap();
        if at < i {
            assert(state.popups[at].id != state.popups[i].id);
        }
    }
}

/// The hotkey asks for the text of the application in front, at the cursor, and with
/// the rectangle of the last selection exactly where that was made in the same known
/// window.
pub proof fn lemma_the_hotkey_asks_for_the_application_in_front(
    state: ShellModel,
    process_id: u32,
    root: isize,
    cursor: Option<ScreenPoint>,
)
    ensures
        ({
            let spec = manual_spec(state, process_id, root, cursor);
            &&& spec.trigger == TriggerKind::Manual
            &&& spec.process_id == process_id
            &&& spec.source_root_window == root
            &&& spec.foreground_guard_root_window == root
            &&& spec.pointer == cursor
            &&& spec.source_popup_id is None
            &&& spec.destination_popup_id is None
            &&& !spec.bypass_duplicate_suppression
            &&& spec.selection_rect is Some <==> (state.last_selection_rect matches Some(
                (rect, made_in),
            ) && made_in != 0 && made_in == root)
            &&& spec.selection_rect matches Some(rect) ==> state.last_selection_rect == Some(
                (rect, root),
            )
        }),
{
}

/// The prompt of a new request is the one that was chosen last, for as long as a
/// profile has that identifier, and the default one otherwise.
pub proof fn lemma_the_chosen_prompt_is_used(state: ShellModel, default_prompt: Seq<char>, i: int)
    ensures
        state.active_prompt_id is None ==> state.selected_prompt(default_prompt) == default_prompt,
        state.active_prompt_id matches Some(id) ==> (0 <= i < state.config.profiles.len()
            && state.config.profiles[i].id == id ==> state.selected_prompt(default_prompt) == id),
        state.active_prompt_id matches Some(id) && (forall|j: int|
            0 <= j < state.config.profiles.len() ==> (#[trigger] state.config.profiles[j]).id != id)
            ==> state.selected_prompt(default_prompt) == default_prompt,
{
    if let Some(id) = state.active_prompt_id {
        lemma_profile_position(state.config.profiles, id);
    }
}

/// Cycling starts from the prompt that was chosen last, else from that of the last
/// request, else from the default.
pub proof fn lemma_cycling_starts_from_the_last_prompt(
    state: ShellModel,
    default_prompt: Seq<char>,
)
    ensures
        state.active_prompt_id matches Some(id) ==> state.cycled_prompt(default_prompt) == id,
        state.active_prompt_id is None ==> (state.last_request matches Some(spec)
            ==> state.cycled_prompt(default_prompt) == spec.prompt_id@),
        state.active_prompt_id is None && state.last_request is None ==> state.cycled_prompt(
            default_prompt,
        ) == default_prompt,
{
}

/// A prompt that no profile has is followed by the first profile, and without
/// profiles nothing follows. With at least two profiles of different identifiers the
/// next prompt is another one, and it always is one of the profiles'.
pub proof fn lemma_cycling_moves_on(profiles: Seq<PromptModel>, current: Seq<char>)
    ensures
        profiles.len() == 0 ==> following_prompt(profiles, current).len() == 0,
        profiles.len() > 0 && (forall|j: int|
            0 <= j < profiles.len() ==> (#[trigger] profiles[j]).id != current)
            ==> following_prompt(profiles, current) == profiles[0].id,
        profiles.len() > 1 && (forall|a: int, b: int|
            0 <= a < b < profiles.len() ==> (#[trigger] profiles[a]).id != (
            #[trigger] profiles[b]).id) ==> following_prompt(profiles, current) != current,
        profiles.len() > 0 ==> has_profile(profiles, following_prompt(profiles, current)),
{
    lemma_profile_position(profiles, current);
    lemma_profile_position(profiles, following_prompt(profiles, current));
    if let Some(i) = profile_position(profiles, current) {
        lemma_prompts_cycle(profiles, i);
        if profiles.len() > 1 && (forall|a: int, b: int|
            0 <= a < b < profiles.len() ==> (#[trigger] profiles[a]).id != (
            #[trigger] profiles[b]).id) {
            if i + 1 < profiles.len() {
                assert(profiles[i].id != profiles[i + 1].id);
            } else {
                assert(profiles[0].id != profiles[i].id);
            }
        }
    }
}

/// What becomes of a text that was extracted for the pending attempt. Where nothing is
/// faulty, a selection is prepared and any other trigger admitted, with the text as it
/// came, its rectangle where it brought none, and at the pointer; a failure is told to
/// the hotkey only.
pub proof fn lemma_an_extracted_text_goes_on(
    state: ShellModel,
    event: ExtractionCompleted,
    cursor: Option<ScreenPoint>,
    outcome: ExtractionOutcome,
)
    requires
        state.extraction_leads_to(event, cursor, outcome),
        state.pending matches Some(pending) && pending.attempt == event.attempt
            && pending.spec.trigger == event.trigger && pending.config_generation
            == state.config_generation,
    ensures
        state.after_extraction(event).pending is None,
        state.after_extraction(event).popups == state.popups,
        state.startup_error is None ==> (event.result matches Ok(text) ==> {
            let request = match outcome {
                ExtractionOutcome::Prepare(request) => Some(request),
                ExtractionOutcome::Admit(request) => Some(request),
                _ => None,
            };
            &&& event.trigger == TriggerKind::Selection <==> outcome is Prepare
            &&& event.trigger != TriggerKind::Selection <==> outcome is Admit
            &&& request matches Some(made)
            &&& Some(made.pending) == state.pending
            &&& made.text.target == text.target
            &&& made.text.context == text.context
            &&& made.text.source == text.source
            &&& text.screen_rect is Some ==> made.text.screen_rect == text.screen_rect
            &&& text.screen_rect is None ==> made.text.screen_rect == event.selection_rect
            &&& event.pointer matches Some(point) ==> made.anchor == point
            &&& event.pointer is None ==> (cursor matches Some(point) ==> made.anchor == point)
        }),
        event.trigger != TriggerKind::Manual && (state.startup_error is Some || event.result is Err)
            ==> outcome == ExtractionOutcome::Ignored,
        event.trigger == TriggerKind::Manual && state.startup_error is Some ==> (outcome matches
            ExtractionOutcome::LocalError { message, .. } && message@
            == state.startup_error.unwrap()),
        event.trigger == TriggerKind::Manual && state.startup_error is None ==> (
        event.result matches Err(failure) ==> (outcome matches ExtractionOutcome::LocalError {
            message,
            ..
        } && message@ == extraction_error_text(failure))),
{
}

/// The words for different failures of an extraction differ.
pub proof fn lemma_extraction_failures_are_told_apart(a: ExtractionFailure, b: ExtractionFailure)
    requires
        a != b,
    ensures
        extraction_error_text(a) != extraction_error_text(b),
        extraction_error_text(a).len() > 0,
{
    reveal_strlit("This control does not expose selectable text");
    reveal_strlit("No selectable text was detected");
    reveal_strlit("Text access was denied");
    reveal_strlit("The text target changed before it could be read");
    reveal_strlit("Text extraction is unavailable");
    assert(extraction_error_text(ExtractionFailure::UnsupportedPattern).len() == 44);
    assert(extraction_error_text(ExtractionFailure::EmptyRange).len() == 31);
    assert(extraction_error_text(ExtractionFailure::PermissionDenied).len() == 22);
    assert(extraction_error_text(ExtractionFailure::StaleElement).len() == 47);
    assert(extraction_error_text(ExtractionFailure::Platform).len() == 30);
}

// What the operations do to the shell.

/// A selection is remembered with its window, so that the hotkey finds it
/// again; one without a rectangle forgets the last, a hover leaves it, and
/// while the user rests nothing happens at all.
pub proof fn lemma_a_selection_is_remembered(
    shell: &mut Shell,
    trigger: MouseTrigger,
    over: Option<PopupId>,
    foreground_root: isize,
    default_prompt: &str,
    cursor: Option<ScreenPoint>,
    priorities: Priorities,
    actions: &mut Vec<ShellAction>,
    outcome: BeginOutcome,
)
    requires
        call_ensures(
            Shell::observe_trigger,
            (shell, trigger, over, foreground_root, default_prompt, cursor, priorities, actions),
            outcome,
        ),
    ensures
        !old(shell)@.rest_enabled ==> {
            &&& trigger matches MouseTrigger::Selection {
                rect: Some(rect),
                source_root_window,
                ..
            } ==> final(shell)@.last_selection_rect == Some((rect, source_root_window))
            &&& trigger matches MouseTrigger::Selection { rect: None, .. }
                ==> final(shell)@.last_selection_rect is None
            &&& trigger is Hover ==> final(shell)@.last_selection_rect
                == old(shell)@.last_selection_rect
        },
        old(shell)@.rest_enabled ==> final(shell)@ == old(shell)@
            && final(actions)@ == old(actions)@ && outcome == BeginOutcome::Ignored,
{
}

/// A gesture that is taken up leaves one pending extraction, of its own kind
/// and application, under the next attempt number.
pub proof fn lemma_a_gesture_becomes_the_pending_attempt(
    shell: &mut Shell,
    trigger: MouseTrigger,
    over: Option<PopupId>,
    foreground_root: isize,
    default_prompt: &str,
    cursor: Option<ScreenPoint>,
    priorities: Priorities,
    actions: &mut Vec<ShellAction>,
    outcome: BeginOutcome,
)
    requires
        call_ensures(
            Shell::observe_trigger,
            (shell, trigger, over, foreground_root, default_prompt, cursor, priorities, actions),
            outcome,
        ),
        outcome is Extract,
    ensures
        final(shell)@.pending matches Some(pending) && {
            &&& pending.attempt == old(shell)@.next_attempt
            &&& pending.config_generation == old(shell)@.config_generation
            &&& pending.spec.destination_popup_id is None
            &&& !pending.spec.bypass_duplicate_suppression
            &&& trigger matches MouseTrigger::Selection {
                pointer,
                process_id,
                source_root_window,
                rect,
            } ==> pending.spec.trigger == TriggerKind::Selection && pending.spec.pointer == Some(
                pointer,
            ) && pending.spec.process_id == process_id && pending.spec.source_root_window
                == source_root_window && pending.spec.selection_rect == rect
            &&& trigger matches MouseTrigger::Hover { pointer, process_id, source_root_window }
                ==> pending.spec.trigger == TriggerKind::Hover && pending.spec.pointer == Some(
                pointer,
            ) && pending.spec.process_id == process_id && pending.spec.source_root_window
                == source_root_window && pending.spec.selection_rect is None
        },
        !old(shell)@.rest_enabled,
        final(shell)@.config == old(shell)@.config,
{
}

/// The hotkey asks for the application in front, and takes the remembered
/// selection along only where it was made there.
pub proof fn lemma_the_hotkey_becomes_the_pending_attempt(
    shell: &mut Shell,
    process_id: u32,
    source_root_window: isize,
    cursor: Option<ScreenPoint>,
    default_prompt: &str,
    priorities: Priorities,
    actions: &mut Vec<ShellAction>,
    outcome: BeginOutcome,
)
    requires
        call_ensures(
            Shell::observe_manual,
            (shell, process_id, source_root_window, cursor, default_prompt, priorities, actions),
            outcome,
        ),
    ensures
        outcome is Extract ==> (final(shell)@.pending matches Some(pending) && {
            &&& pending.spec.trigger == TriggerKind::Manual
            &&& pending.spec.process_id == process_id
            &&& pending.spec.source_root_window == source_root_window
            &&& pending.attempt == old(shell)@.next_attempt
            &&& pending.spec.selection_rect matches Some(rect) ==> old(shell)@.last_selection_rect
                == Some((rect, source_root_window))
        }),
        old(shell)@.rest_enabled ==> outcome == BeginOutcome::Ignored
            && final(shell)@ == old(shell)@,
        outcome matches BeginOutcome::LocalError { message, .. } ==> old(shell)@.startup_error
            == Some(message@) && final(shell)@ == old(shell)@,
{
}

/// Cycling goes to the next prompt of the configuration and says so to new
/// requests and to a repetition; it touches nothing else.
pub proof fn lemma_cycling_changes_only_the_prompt(
    shell: &mut Shell,
    default_prompt: &str,
    outcome: (),
)
    requires
        call_ensures(Shell::cycle_prompt, (shell, default_prompt), outcome),
    ensures
        old(shell)@.config.profiles.len() == 0 ==> final(shell)@ == old(shell)@,
        final(shell)@.active_prompt_id != old(shell)@.active_prompt_id
            ==> (final(shell)@.active_prompt_id matches Some(id)
            && has_profile(old(shell)@.config.profiles, id)
            && (final(shell)@.last_request matches Some(request) ==> request.prompt_id@ == id)),
        final(shell)@.popups == old(shell)@.popups,
        final(shell)@.pending == old(shell)@.pending,
        final(shell)@.active_request == old(shell)@.active_request,
        final(shell)@.last_request is Some == old(shell)@.last_request is Some,
        (final(shell)@.last_request matches Some(after) ==> (old(shell)@.last_request matches Some(
            before,
        ) ==> after.trigger == before.trigger && after.process_id == before.process_id
            && after.source_root_window == before.source_root_window && after.selection_rect
            == before.selection_rect)),
{
    let profiles = old(shell)@.config.profiles;
    let current = old(shell)@.cycled_prompt(default_prompt@);
    lemma_cycling_moves_on(profiles, current);
}

/// A choice that is shown waits, with the request and the profiles in the
/// order they were shown in; one that could not be shown takes its popup away
/// and is reported once, until a popup is shown again.
pub proof fn lemma_a_shown_choice_waits(
    shell: &mut Shell,
    popup_id: Option<PopupId>,
    shown: bool,
    request: ExtractedRequest,
    profile_ids: Vec<String>,
    actions: &mut Vec<ShellAction>,
    report: bool,
)
    requires
        old(shell)@.wf(),
        call_ensures(
            Shell::offer_profiles,
            (shell, popup_id, shown, request, profile_ids, actions),
            report,
        ),
    ensures
        shown ==> (popup_id matches Some(id) ==> (final(shell)@.choice matches Some(choice) && {
            &&& choice.popup_id == id
            &&& choice.profile_ids == profile_ids
            &&& choice.text == request.text
            &&& choice.anchor == request.anchor
            &&& choice.pending == request.pending
        })),
        shown ==> !report && final(shell)@.popups == old(shell)@.popups
            && final(actions)@ == old(actions)@
            && final(shell)@.presented_trigger == Some(TriggerKind::Selection)
            && !final(shell)@.popup_failure_reported,
        !shown ==> final(shell)@.popup_failure_reported && (report
            <==> !old(shell)@.popup_failure_reported),
        !shown ==> (popup_id matches Some(id) ==> !is_registered(final(shell)@.popups, id)),
        !shown && popup_id is None ==> final(shell)@.choice == old(shell)@.choice,
{
    if !shown {
        if let Some(id) = popup_id {
            lemma_removal_leaves_no_reference(old(shell)@, id);
        }
    }
}

/// A popup repeats the request that it was made with, on the same text and
/// for itself, even if it was just asked; all earlier work is given up first.
/// A popup that is not there, or was never filled, repeats nothing.
pub proof fn lemma_a_popup_repeats_its_own_request(
    shell: &mut Shell,
    popup_id: PopupId,
    cycle: bool,
    actions: &mut Vec<ShellAction>,
    request: Option<ExtractedRequest>,
    i: int,
)
    requires
        old(shell)@.wf(),
        call_ensures(Shell::replay_popup, (shell, popup_id, cycle, actions), request),
    ensures
        0 <= i < old(shell)@.popups.len() && old(shell)@.popups[i].id == popup_id ==> {
            let entry = old(shell)@.popups[i];
            &&& request matches Some(made) ==> {
                &&& entry.last_text == Some(made.text)
                &&& made.anchor == entry.anchor
                &&& made.pending.spec.destination_popup_id == Some(popup_id)
                &&& made.pending.spec.source_popup_id is None
                &&& made.pending.spec.bypass_duplicate_suppression
                &&& entry.last_request matches Some(spec) && {
                    &&& made.pending.spec.trigger == spec.trigger
                    &&& made.pending.spec.process_id == spec.process_id
                    &&& made.pending.spec.source_root_window == spec.source_root_window
                    &&& !cycle ==> made.pending.spec.prompt_id@ == spec.prompt_id@
                    &&& cycle ==> has_profile(
                        old(shell)@.config.profiles,
                        made.pending.spec.prompt_id@,
                    )
                }
            }
            &&& !cycle && entry.last_request is Some && entry.last_text is Some ==> request is Some
            &&& entry.last_request is None || entry.last_text is None ==> request is None
        },
        (forall|k: int| 0 <= k < old(shell)@.popups.len() ==> (#[trigger] old(shell)@.popups[k]).id
            != popup_id) ==> request is None,
        request is None ==> final(shell)@ == old(shell)@ && final(actions)@ == old(actions)@,
        request is Some ==> final(shell)@.pending is None && final(shell)@.active_request is None
            && !final(shell)@.provider_active && final(shell)@.stream_output.len() == 0
            && final(actions)@ == old(actions)@ + old(shell)@.work_cancellation(),
        final(shell)@.popups == old(shell)@.popups,
        final(shell)@.choice == old(shell)@.choice,
{
    lemma_popup_position(old(shell)@.popups, popup_id);
    if popup_position(old(shell)@.popups, popup_id) is Some {
        let at = popup_position(old(shell)@.popups, popup_id).unwrap();
        assert(old(shell)@.popups[at].id == popup_id);
        if 0 <= i < old(shell)@.popups.len() && old(shell)@.popups[i].id == popup_id {
            assert(i == at);
        }
        if old(shell)@.popups[at].last_request is Some {
            lemma_cycling_moves_on(
                old(shell)@.config.profiles,
                old(shell)@.popups[at].last_request.unwrap().prompt_id@,
            );
        }
    }
}

/// Only the extraction that was asked for takes the pending slot: the same
/// attempt, of the same kind, under the same configuration. Any other leaves
/// it.
pub proof fn lemma_only_the_awaited_extraction_is_taken(
    slot: &mut Option<PendingAttempt>,
    attempt: u64,
    trigger: TriggerKind,
    config_generation: u64,
    taken: Option<PendingAttempt>,
)
    requires
        call_ensures(take_matching_pending, (slot, attempt, trigger, config_generation), taken),
    ensures
        (*old(slot) matches Some(pending) ==> (pending.attempt == attempt && pending.spec.trigger
            == trigger && pending.config_generation == config_generation <==> taken is Some)),
        *old(slot) is None ==> taken is None,
        taken is Some ==> taken == *old(slot) && *final(slot) is None,
        taken is None ==> *final(slot) == *old(slot),
{
}

/// A request stands at its pointer, or at the cursor where it has none.
pub proof fn lemma_where_a_request_stands(
    point: ScreenPoint,
    cursor: Option<ScreenPoint>,
    pointed: ScreenPoint,
    unpointed: ScreenPoint,
)
    requires
        call_ensures(request_anchor, (Some(point), cursor), pointed),
        call_ensures(request_anchor, (None, cursor), unpointed),
    ensures
        pointed == point,
        cursor matches Some(at) ==> unpointed == at,
{
}

/// Why a request was not admitted is told in words that fit.
pub proof fn lemma_rejections_are_told()
    ensures
        request_error_text(RequestRejection::MissingTarget) == "No selectable text was detected"@,
        request_error_text(RequestRejection::TargetTooLong) == "Selected text is too long"@,
        request_error_text(RequestRejection::Cancelled) == "Request cancelled"@,
        request_error_text(RequestRejection::StaleJob) == "Request became stale"@,
        request_error_text(RequestRejection::MissingPrompt) == request_error_text(
            RequestRejection::InvalidPrompt,
        ),
        request_error_text(RequestRejection::MissingProviderConfig) == request_error_text(
            RequestRejection::InvalidProviderConfig,
        ),
{
}

/// A selection that could be prepared waits for a choice; one that could not is
/// dropped.
pub proof fn lemma_a_prepared_selection_waits(
    request: ExtractedRequest,
    prepared: Result<(), RequestRejection>,
    outcome: ExtractionOutcome,
)
    requires
        call_ensures(offer_selection, (request, prepared), outcome),
    ensures
        prepared is Ok ==> outcome == ExtractionOutcome::Choose(request),
        prepared is Err ==> outcome == ExtractionOutcome::Ignored,
{
}

/// An extraction ends, and a profile is chosen, by the rules of the model; the
/// chosen profile is the entry that was clicked.
pub proof fn lemma_extractions_and_choices_follow_the_model(
    extracting: &mut Shell,
    event: ExtractionCompleted,
    cursor: Option<ScreenPoint>,
    outcome: ExtractionOutcome,
    choosing: &mut Shell,
    popup_id: PopupId,
    index: usize,
    actions: &mut Vec<ShellAction>,
    request: Option<ExtractedRequest>,
)
    requires
        call_ensures(Shell::handle_extraction, (extracting, event, cursor), outcome),
        call_ensures(Shell::begin_selected_profile, (choosing, popup_id, index, actions), request),
    ensures
        old(extracting)@.extraction_leads_to(event, cursor, outcome),
        final(extracting)@ == old(extracting)@.after_extraction(event),
        selects_profile(old(choosing)@, final(choosing)@, popup_id, index, request),
        request matches Some(made) ==> (old(choosing)@.choice matches Some(choice) && index
            < choice.profile_ids@.len() && made.pending.spec.prompt_id
            == choice.profile_ids@[index as int] && made.text == choice.text),
{
}

} // verus!
