//! Admitting a request, showing it, and following the provider's stream.
//!
//! A provider is started only behind a chain of checks: the foreground, the
//! popup that the text came from, the content of the request, the coordination
//! with other jobs, and a result window that is already visible.

use crate::extraction::{ExtractionSource, TextContext, TriggerKind};
use crate::geometry::ScreenPoint;
use crate::history_writer::CompletedEntry;
use crate::popups::{
    cascade_source_status, hover_foreground_guard_is_current, CascadeSourceStatus, PopupId,
    ResultSurfaceError,
};
use crate::provider::{provider_error, provider_error_text, ProviderError};
use crate::shell::{
    is_registered, lemma_popup_position, popup_position, ActiveRequest, CacheIdentity, PopupEntry,
    PreparedText, RequestSpec, Shell, ShellAction, ShellModel,
};
use crate::shell_request::{
    request_error, request_error_text, ExtractedRequest, RequestRejection,
};
use crate::shell_surface::StagedPopup;
use crate::text::copy_of;
use vstd::prelude::*;

verus! {

/// What admission depends on besides its events.
#[derive(Debug, PartialEq, Eq)]
pub struct AdmissionContext {
    pub trigger: TriggerKind,
    pub foreground_guard_root_window: isize,
    /// The text was read from a popup.
    pub has_source: bool,
    /// Where the text was asked for.
    pub anchor: ScreenPoint,
    pub startup_error: Option<String>,
}

/// Why a request is not admitted, as far as the user learns it.
#[derive(Debug, PartialEq, Eq)]
pub enum Refusal {
    Silent,
    LocalError { anchor: ScreenPoint, message: String },
    /// Say that no window could be opened, once.
    Unavailable,
}

/// What admission waits for. Once the popup that the text came from is known,
/// the stage says where the result is to be shown.
#[derive(Debug, PartialEq, Eq)]
pub enum AdmissionStage {
    /// Which window is in the foreground.
    Foreground,
    /// Whether the popup that the text came from still shows its result, and
    /// where the next one is to stand.
    Source,
    /// Whether the content of the request is in order.
    Prepare { anchor: ScreenPoint },
    /// Whether other jobs allow it.
    CanStart { anchor: ScreenPoint },
    /// A window for the result.
    Surface { anchor: ScreenPoint },
    /// Whether the window is visible.
    Present { anchor: ScreenPoint },
    /// The number of the job.
    Start { anchor: ScreenPoint },
    /// The request is admitted: commit it, then start the provider.
    Admitted { anchor: ScreenPoint, job_id: u64 },
    Refused(Refusal),
}

/// What admission is told.
#[derive(Debug, PartialEq, Eq)]
pub enum AdmissionEvent {
    Foreground { root_window: isize, is_popup: bool },
    /// `cascade` is where a popup beside the source is to stand.
    Source { present: bool, available: bool, completed: bool, cascade: Option<ScreenPoint> },
    Prepared(Result<(), RequestRejection>),
    /// Why other jobs do not allow it, where they do not.
    CanStart(Result<(), String>),
    Surface(Result<PopupId, ResultSurfaceError>),
    Presented(bool),
    Started { job_id: u64 },
}

/// The event answers the stage.
pub open spec fn admission_event_fits(stage: AdmissionStage, event: AdmissionEvent) -> bool {
    match stage {
        AdmissionStage::Foreground => event is Foreground,
        AdmissionStage::Source => event is Source,
        AdmissionStage::Prepare { .. } => event is Prepared,
        AdmissionStage::CanStart { .. } => event is CanStart,
        AdmissionStage::Surface { .. } => event is Surface,
        AdmissionStage::Present { .. } => event is Presented,
        AdmissionStage::Start { .. } => event is Started,
        AdmissionStage::Admitted { .. } | AdmissionStage::Refused(_) => false,
    }
}

/// Where the result is to be shown once the event is known: beside the popup
/// that the text was read from, and otherwise where the text was asked for.
pub open spec fn anchor_behind(
    context: AdmissionContext,
    stage: AdmissionStage,
    event: AdmissionEvent,
) -> ScreenPoint {
    match (stage, event) {
        (
            AdmissionStage::Source,
            AdmissionEvent::Source { cascade: Some(beside), .. },
        ) => beside,
        (AdmissionStage::Prepare { anchor }, _) => anchor,
        (AdmissionStage::CanStart { anchor }, _) => anchor,
        (AdmissionStage::Surface { anchor }, _) => anchor,
        (AdmissionStage::Present { anchor }, _) => anchor,
        (AdmissionStage::Start { anchor }, _) => anchor,
        _ => context.anchor,
    }
}

fn next_anchor(context: &AdmissionContext, stage: &AdmissionStage, event: &AdmissionEvent) -> (anchor:
    ScreenPoint)
    ensures
        anchor == anchor_behind(*context, *stage, *event),
{
    match stage {
        AdmissionStage::Source => match event {
            AdmissionEvent::Source { cascade: Some(beside), .. } => *beside,
            _ => context.anchor,
        },
        AdmissionStage::Prepare { anchor } => *anchor,
        AdmissionStage::CanStart { anchor } => *anchor,
        AdmissionStage::Surface { anchor } => *anchor,
        AdmissionStage::Present { anchor } => *anchor,
        AdmissionStage::Start { anchor } => *anchor,
        _ => context.anchor,
    }
}

/// The event lets the request pass its stage.
pub open spec fn passes(context: AdmissionContext, event: AdmissionEvent) -> bool {
    match event {
        AdmissionEvent::Foreground { root_window, is_popup } => context.trigger
            != TriggerKind::Hover || is_popup || context.foreground_guard_root_window != 0
            && context.foreground_guard_root_window == root_window,
        AdmissionEvent::Source { present, available, completed, cascade } => present && available
            && completed && cascade is Some,
        AdmissionEvent::Prepared(result) => result is Ok,
        AdmissionEvent::CanStart(result) => result is Ok,
        AdmissionEvent::Surface(result) => result is Ok,
        AdmissionEvent::Presented(presented) => presented,
        AdmissionEvent::Started { .. } => true,
    }
}

/// The stage behind a passed one.
pub open spec fn stage_behind(
    context: AdmissionContext,
    stage: AdmissionStage,
    event: AdmissionEvent,
) -> AdmissionStage {
    let anchor = anchor_behind(context, stage, event);
    match stage {
        AdmissionStage::Foreground => if context.has_source {
            AdmissionStage::Source
        } else {
            AdmissionStage::Prepare { anchor }
        },
        AdmissionStage::Source => AdmissionStage::Prepare { anchor },
        AdmissionStage::Prepare { .. } => AdmissionStage::CanStart { anchor },
        AdmissionStage::CanStart { .. } => AdmissionStage::Surface { anchor },
        AdmissionStage::Surface { .. } => AdmissionStage::Present { anchor },
        AdmissionStage::Present { .. } => AdmissionStage::Start { anchor },
        _ => AdmissionStage::Admitted { anchor, job_id: event->Started_job_id },
    }
}

/// The refusal is the one that the event stands for. Only an explicit request
/// learns in words why its content or its time was wrong.
pub open spec fn is_refusal(
    context: AdmissionContext,
    stage: AdmissionStage,
    event: AdmissionEvent,
    refusal: Refusal,
) -> bool {
    let shown_at = anchor_behind(context, stage, event);
    let manual = context.trigger == TriggerKind::Manual;
    match event {
        AdmissionEvent::Prepared(Err(rejection)) if manual => {
            &&& refusal matches Refusal::LocalError { anchor, message }
            &&& anchor == shown_at
            &&& message@ == match context.startup_error {
                Some(error) => error@,
                None => request_error_text(rejection),
            }
        },
        AdmissionEvent::CanStart(Err(reason)) if manual => {
            &&& refusal matches Refusal::LocalError { anchor, message }
            &&& anchor == shown_at
            &&& message@ == reason@
        },
        AdmissionEvent::Surface(Err(ResultSurfaceError::Unavailable)) => refusal
            == Refusal::Unavailable,
        AdmissionEvent::Presented(_) => refusal == Refusal::Unavailable,
        _ => refusal == Refusal::Silent,
    }
}

/// Advances admission past the event that it waited for.
pub fn admission_step(context: &AdmissionContext, stage: AdmissionStage, event: AdmissionEvent) -> (next:
    AdmissionStage)
    requires
        admission_event_fits(stage, event),
    ensures
        if passes(*context, event) {
            next == stage_behind(*context, stage, event)
        } else {
            next matches AdmissionStage::Refused(refusal) && is_refusal(
                *context,
                stage,
                event,
                refusal,
            )
        },
{
    let anchor: ScreenPoint = next_anchor(context, &stage, &event);
    let manual: bool = context.trigger == TriggerKind::Manual;
    match event {
        AdmissionEvent::Foreground { root_window, is_popup } => {
            if !hover_foreground_guard_is_current(
                context.trigger,
                context.foreground_guard_root_window,
                root_window,
                is_popup,
            ) {
                AdmissionStage::Refused(Refusal::Silent)
            } else if context.has_source {
                AdmissionStage::Source
            } else {
                AdmissionStage::Prepare { anchor }
            }
        },
        AdmissionEvent::Source { present, available, completed, cascade } => {
            match cascade_source_status(present, available, completed, cascade.is_some()) {
                CascadeSourceStatus::Ready => AdmissionStage::Prepare { anchor },
                _ => AdmissionStage::Refused(Refusal::Silent),
            }
        },
        AdmissionEvent::Prepared(result) => match result {
            Ok(()) => AdmissionStage::CanStart { anchor },
            Err(rejection) => if manual {
                AdmissionStage::Refused(
                    Refusal::LocalError {
                        anchor,
                        message: match &context.startup_error {
                            Some(error) => error.clone(),
                            None => copy_of(request_error(rejection)),
                        },
                    },
                )
            } else {
                AdmissionStage::Refused(Refusal::Silent)
            },
        },
        AdmissionEvent::CanStart(result) => match result {
            Ok(()) => AdmissionStage::Surface { anchor },
            Err(reason) => if manual {
                AdmissionStage::Refused(Refusal::LocalError { anchor, message: reason })
            } else {
                AdmissionStage::Refused(Refusal::Silent)
            },
        },
        AdmissionEvent::Surface(result) => match result {
            Ok(_) => AdmissionStage::Present { anchor },
            Err(ResultSurfaceError::ProtectedCapacity) => AdmissionStage::Refused(Refusal::Silent),
            Err(ResultSurfaceError::Unavailable) => AdmissionStage::Refused(Refusal::Unavailable),
        },
        AdmissionEvent::Presented(presented) => if presented {
            AdmissionStage::Start { anchor }
        } else {
            AdmissionStage::Refused(Refusal::Unavailable)
        },
        AdmissionEvent::Started { job_id } => AdmissionStage::Admitted { anchor, job_id },
    }
}

/// The stage that the events lead to from the first one; a refusal, of
/// whatever kind, is the end.
pub open spec fn stage_reached(context: AdmissionContext, events: Seq<AdmissionEvent>) -> AdmissionStage
    decreases events.len(),
{
    if events.len() == 0 {
        AdmissionStage::Foreground
    } else {
        let before = stage_reached(context, events.drop_last());
        if admission_event_fits(before, events.last()) && passes(context, events.last()) {
            stage_behind(context, before, events.last())
        } else {
            AdmissionStage::Refused(Refusal::Silent)
        }
    }
}

/// The content of the request was accepted.
pub open spec fn accepts_content(event: AdmissionEvent) -> bool {
    event matches AdmissionEvent::Prepared(Ok(_))
}

/// Other jobs allow the request.
pub open spec fn allows_start(event: AdmissionEvent) -> bool {
    event matches AdmissionEvent::CanStart(Ok(_))
}

/// A window for the result was found.
pub open spec fn finds_surface(event: AdmissionEvent) -> bool {
    event matches AdmissionEvent::Surface(Ok(_))
}

/// The window is visible.
pub open spec fn shows_surface(event: AdmissionEvent) -> bool {
    event == AdmissionEvent::Presented(true)
}

/// What has been established when a stage is reached.
pub open spec fn established(events: Seq<AdmissionEvent>, stage: AdmissionStage) -> bool {
    let accepted = exists|i: int| 0 <= i < events.len() && accepts_content(#[trigger] events[i]);
    let allowed = exists|i: int| 0 <= i < events.len() && allows_start(#[trigger] events[i]);
    let found = exists|i: int| 0 <= i < events.len() && finds_surface(#[trigger] events[i]);
    let visible = exists|i: int| 0 <= i < events.len() && shows_surface(#[trigger] events[i]);
    match stage {
        AdmissionStage::CanStart { .. } => accepted,
        AdmissionStage::Surface { .. } => accepted && allowed,
        AdmissionStage::Present { .. } => accepted && allowed && found,
        AdmissionStage::Start { .. } | AdmissionStage::Admitted { .. } => accepted && allowed
            && found && visible,
        _ => true,
    }
}

/// No provider is started without a valid text and a visible window: a request
/// is admitted only once its content was accepted, other jobs allowed it, and a
/// window for its result was found and is visible.
pub proof fn lemma_admission_has_all_its_evidence(
    context: AdmissionContext,
    events: Seq<AdmissionEvent>,
)
    ensures
        established(events, stage_reached(context, events)),
    decreases events.len(),
{
    if events.len() > 0 {
        let earlier = events.drop_last();
        lemma_admission_has_all_its_evidence(context, earlier);
        let last = events.len() - 1;
        assert(events[last] == events.last());
        assert forall|i: int| 0 <= i < earlier.len() implies #[trigger] earlier[i] == events[i] by {}
        if exists|i: int| 0 <= i < earlier.len() && accepts_content(#[trigger] earlier[i]) {
            let i = choose|i: int| 0 <= i < earlier.len() && accepts_content(#[trigger] earlier[i]);
            assert(accepts_content(events[i]));
        }
        if exists|i: int| 0 <= i < earlier.len() && allows_start(#[trigger] earlier[i]) {
            let i = choose|i: int| 0 <= i < earlier.len() && allows_start(#[trigger] earlier[i]);
            assert(allows_start(events[i]));
        }
        if exists|i: int| 0 <= i < earlier.len() && finds_surface(#[trigger] earlier[i]) {
            let i = choose|i: int| 0 <= i < earlier.len() && finds_surface(#[trigger] earlier[i]);
            assert(finds_surface(events[i]));
        }
        if exists|i: int| 0 <= i < earlier.len() && shows_surface(#[trigger] earlier[i]) {
            let i = choose|i: int| 0 <= i < earlier.len() && shows_surface(#[trigger] earlier[i]);
            assert(shows_surface(events[i]));
        }
    }
}

/// The point at which a stage shows the result, where it knows it.
pub open spec fn known_anchor(stage: AdmissionStage) -> Option<ScreenPoint> {
    match stage {
        AdmissionStage::Prepare { anchor } => Some(anchor),
        AdmissionStage::CanStart { anchor } => Some(anchor),
        AdmissionStage::Surface { anchor } => Some(anchor),
        AdmissionStage::Present { anchor } => Some(anchor),
        AdmissionStage::Start { anchor } => Some(anchor),
        AdmissionStage::Admitted { anchor, .. } => Some(anchor),
        _ => None,
    }
}

/// The event says that a popup beside the source is to stand at the point.
pub open spec fn cascades_to(event: AdmissionEvent, point: ScreenPoint) -> bool {
    event matches AdmissionEvent::Source { cascade, .. } && cascade == Some(point)
}

/// The result of a text that was read from a popup is shown beside that popup,
/// and any other result where the text was asked for. The window is asked for
/// and the request is committed at the same point.
pub proof fn lemma_result_stands_beside_its_source(
    context: AdmissionContext,
    events: Seq<AdmissionEvent>,
)
    ensures
        known_anchor(stage_reached(context, events)) matches Some(anchor) ==> if context.has_source {
            exists|i: int| 0 <= i < events.len() && cascades_to(#[trigger] events[i], anchor)
        } else {
            anchor == context.anchor
        },
        stage_reached(context, events) is Source ==> context.has_source,
    decreases events.len(),
{
    if events.len() > 0 {
        let earlier = events.drop_last();
        lemma_result_stands_beside_its_source(context, earlier);
        let before = stage_reached(context, earlier);
        let after = stage_reached(context, events);
        let last = events.len() - 1;
        assert(events[last] == events.last());
        if known_anchor(after) is Some && context.has_source {
            let anchor = known_anchor(after).unwrap();
            if before is Source {
                assert(cascades_to(events[last], anchor));
            } else {
                let i = choose|i: int|
                    0 <= i < earlier.len() && cascades_to(#[trigger] earlier[i], anchor);
                assert(earlier[i] == events[i]);
            }
        }
    }
}

/// A full house of popups that must stay is no fault of the system: the
/// request is dropped without a message.
pub proof fn lemma_protected_capacity_is_silent(
    context: AdmissionContext,
    stage: AdmissionStage,
    refusal: Refusal,
)
    requires
        is_refusal(
            context,
            stage,
            AdmissionEvent::Surface(Err(ResultSurfaceError::ProtectedCapacity)),
            refusal,
        ),
    ensures
        refusal == Refusal::Silent,
{
}

// Known results.

/// The name of a source in the identity of a result.
pub open spec fn source_name(source: ExtractionSource) -> Seq<char> {
    match source {
        ExtractionSource::UiaSelection => "UiaSelection"@,
        ExtractionSource::UiaPoint => "UiaPoint"@,
        ExtractionSource::Clipboard => "Clipboard"@,
        ExtractionSource::Ocr => "Ocr"@,
    }
}

impl Shell {
    /// What a known result is kept under besides the request itself: the source
    /// of the text, and the configured endpoint and the model, joined by a bar.
    pub fn cache_identity(&self, text: &TextContext, prepared: &PreparedText) -> (identity:
        CacheIdentity)
        ensures
            identity.source@ == source_name(text.source),
            identity.provider@ == self@.config.endpoint + "|"@ + prepared.model@,
    {
        let source: String = match text.source {
            ExtractionSource::UiaSelection => copy_of("UiaSelection"),
            ExtractionSource::UiaPoint => copy_of("UiaPoint"),
            ExtractionSource::Clipboard => copy_of("Clipboard"),
            ExtractionSource::Ocr => copy_of("Ocr"),
        };
        let mut provider: String = self.config.provider.endpoint.clone();
        provider.append("|");
        provider.append(prepared.model.as_str());
        CacheIdentity { source, provider }
    }
}

// The commit.

/// An admitted request with everything that is shown of it.
#[derive(Debug, PartialEq, Eq)]
pub struct Admitted {
    pub request: ExtractedRequest,
    pub prepared: PreparedText,
    /// What a known result of the request is kept under.
    pub cache: CacheIdentity,
    /// Where the result is shown.
    pub anchor: ScreenPoint,
    pub job_id: u64,
    pub popup_id: PopupId,
    pub staged: Option<StagedPopup>,
    /// The result, where it was known.
    pub cached_output: Option<String>,
}

/// What follows a commit.
#[derive(Debug, PartialEq, Eq)]
pub struct CommitOutcome {
    /// What the popup shows as its input.
    pub input: String,
    /// The request that is complete already, because its result was known; the
    /// provider is started for any other.
    pub completed: Option<ActiveRequest>,
}

impl ShellModel {
    /// The state once the request is committed: it is the current one, in its
    /// popup, and what ran before is replaced.
    pub open spec fn after_commit(self, admitted: Admitted) -> ShellModel {
        let base = self.with_staged(admitted.staged);
        let spec = admitted.request.pending.spec;
        let at = popup_position(base.popups, admitted.popup_id).unwrap();
        ShellModel {
            popups: base.popups.update(
                at,
                PopupEntry {
                    last_request: Some(spec),
                    last_text: Some(admitted.request.text),
                    presented_trigger: Some(spec.trigger),
                    guard_root_window: spec.foreground_guard_root_window,
                    anchor: admitted.anchor,
                    ..base.popups[at]
                },
            ),
            popup_failure_reported: false,
            provider_active: admitted.cached_output is None,
            active_request: if admitted.cached_output is None {
                Some(
                    ActiveRequest {
                        process_id: spec.process_id,
                        text: admitted.request.text,
                        prepared: admitted.prepared,
                        cache: admitted.cache,
                    },
                )
            } else {
                None
            },
            stream_output: match admitted.cached_output {
                Some(output) => output@,
                None => Seq::empty(),
            },
            active_popup_id: Some(admitted.popup_id),
            popup_job_id: Some(admitted.job_id),
            last_request: Some(spec),
            presented_trigger: Some(spec.trigger),
            popup_guard_root_window: spec.foreground_guard_root_window,
            popup_anchor: admitted.anchor,
            ..base
        }
    }

    pub open spec fn commit_actions(self, admitted: Admitted) -> Seq<ShellAction> {
        self.staging_actions(admitted.staged) + if self.with_staged(
            admitted.staged,
        ).provider_active {
            seq![ShellAction::CancelProvider]
        } else {
            seq![]
        }
    }
}

proof fn lemma_update_keeps_wf(state: ShellModel, at: int, entry: PopupEntry)
    requires
        state.wf(),
        0 <= at < state.popups.len(),
        entry.id == state.popups[at].id,
        entry.parent == state.popups[at].parent,
    ensures
        (ShellModel { popups: state.popups.update(at, entry), ..state }).wf(),
        forall|id: PopupId|
            is_registered(state.popups, id) == is_registered(state.popups.update(at, entry), id),
{
    let popups = state.popups.update(at, entry);
    let after = ShellModel { popups, ..state };
    assert forall|id: PopupId| is_registered(state.popups, id) == is_registered(popups, id) by {
        if is_registered(state.popups, id) {
            let i = choose|i: int|
                0 <= i < state.popups.len() && (#[trigger] state.popups[i]).id == id;
            assert(popups[i].id == id);
        }
        if is_registered(popups, id) {
            let i = choose|i: int| 0 <= i < popups.len() && (#[trigger] popups[i]).id == id;
            assert(state.popups[i].id == id);
        }
    }
    assert forall|i: int| 0 <= i < popups.len() implies (#[trigger] popups[i]).id != 0
        && after.is_live(popups[i].parent) by {
        assert(state.popups[i].id == popups[i].id);
        assert(state.is_live(state.popups[i].parent));
    }
    assert forall|i: int, j: int| 0 <= i < j < popups.len() implies (#[trigger] popups[i]).id != (
    #[trigger] popups[j]).id by {
        assert(state.popups[i].id == popups[i].id);
        assert(state.popups[j].id == popups[j].id);
    }
}

impl Shell {
    /// Commits an admitted request. Until now the previous request was the
    /// current one; its stream is cancelled here.
    pub fn commit_request(&mut self, admitted: Admitted, actions: &mut Vec<ShellAction>) -> (outcome:
        CommitOutcome)
        requires
            old(self)@.wf(),
            !old(self)@.rest_enabled,
            old(self)@.can_stage(admitted.staged),
            is_registered(old(self)@.with_staged(admitted.staged).popups, admitted.popup_id),
        ensures
            final(self)@ == old(self)@.after_commit(admitted),
            final(actions)@ == old(actions)@ + old(self)@.commit_actions(admitted),
            final(self)@.wf(),
            outcome.input@ == match admitted.prepared.context {
                Some(sentence) => sentence@,
                None => admitted.prepared.target@,
            },
            outcome.completed == if admitted.cached_output is Some {
                Some(
                    ActiveRequest {
                        process_id: admitted.request.pending.spec.process_id,
                        text: admitted.request.text,
                        prepared: admitted.prepared,
                        cache: admitted.cache,
                    },
                )
            } else {
                None
            },
    {
        let ghost before = self@;
        let Admitted { request, prepared, cache, anchor, job_id, popup_id, staged, cached_output } =
            admitted;
        let ghost base = before.with_staged(staged);
        self.commit_presented_staged_popup(staged, actions);
        if self.provider_active {
            actions.push(ShellAction::CancelProvider);
        }
        proof {
            assert(self@ == base);
            assert(actions@ =~= old(actions)@ + before.commit_actions(admitted));
            lemma_popup_position(base.popups, popup_id);
        }
        let input: String = match &prepared.context {
            Some(sentence) => sentence.clone(),
            None => prepared.target.clone(),
        };
        let ExtractedRequest { pending, text, .. } = request;
        let spec: RequestSpec = pending.spec;
        let trigger: TriggerKind = spec.trigger;
        let guard: isize = spec.foreground_guard_root_window;
        let process_id: u32 = spec.process_id;
        if let Some(index) = self.popup_index(popup_id) {
            self.popups[index].last_request = Some(spec.duplicate());
            self.popups[index].last_text = Some(text.duplicate());
            self.popups[index].presented_trigger = Some(trigger);
            self.popups[index].guard_root_window = guard;
            self.popups[index].anchor = anchor;
            proof {
                let entry = PopupEntry {
                    last_request: Some(spec),
                    last_text: Some(text),
                    presented_trigger: Some(trigger),
                    guard_root_window: guard,
                    anchor,
                    ..base.popups[index as int]
                };
                assert(self.popups@ =~= base.popups.update(index as int, entry));
                lemma_update_keeps_wf(base, index as int, entry);
            }
        }
        self.popup_failure_reported = false;
        self.active_popup_id = Some(popup_id);
        self.popup_job_id = Some(job_id);
        self.last_request = Some(spec);
        self.presented_trigger = Some(trigger);
        self.popup_guard_root_window = guard;
        self.popup_anchor = anchor;
        let active: ActiveRequest = ActiveRequest { process_id, text, prepared, cache };
        match cached_output {
            Some(output) => {
                self.provider_active = false;
                self.active_request = None;
                self.stream_output = output;
                proof {
                    assert(self@ =~= before.after_commit(admitted));
                    assert(self@.wf());
                }
                CommitOutcome { input, completed: Some(active) }
            },
            None => {
                self.provider_active = true;
                self.active_request = Some(active);
                self.stream_output = String::new();
                proof {
                    assert(self@ =~= before.after_commit(admitted));
                    assert(self@.wf());
                }
                CommitOutcome { input, completed: None }
            },
        }
    }

    /// No window could be opened; returns whether the user is told, which is
    /// once until a window opens again.
    pub fn report_unavailable(&mut self) -> (report: bool)
        requires
            old(self)@.wf(),
        ensures
            report == !old(self)@.popup_failure_reported,
            final(self)@ == (ShellModel { popup_failure_reported: true, ..old(self)@ }),
            final(self)@.wf(),
    {
        let ghost before = self@;
        let report: bool = !self.popup_failure_reported;
        self.popup_failure_reported = true;
        proof {
            assert forall|id: PopupId| is_registered(before.popups, id) implies is_registered(
                self@.popups,
                id,
            ) by {}
        }
        report
    }

    /// An error is shown in a popup, which belongs to no trigger.
    pub fn commit_local_error(
        &mut self,
        popup_id: PopupId,
        job_id: u64,
        staged: Option<StagedPopup>,
        actions: &mut Vec<ShellAction>,
    )
        requires
            old(self)@.wf(),
            !old(self)@.rest_enabled,
            old(self)@.can_stage(staged),
            is_registered(old(self)@.with_staged(staged).popups, popup_id),
        ensures
            ({
                let base = old(self)@.with_staged(staged);
                let at = popup_position(base.popups, popup_id).unwrap();
                final(self)@ == (ShellModel {
                    popups: base.popups.update(
                        at,
                        PopupEntry {
                            presented_trigger: None,
                            guard_root_window: 0,
                            ..base.popups[at]
                        },
                    ),
                    popup_job_id: Some(job_id),
                    presented_trigger: None,
                    popup_guard_root_window: 0,
                    active_popup_id: Some(popup_id),
                    popup_failure_reported: false,
                    ..base
                })
            }),
            final(actions)@ == old(actions)@ + old(self)@.staging_actions(staged),
            final(self)@.wf(),
    {
        let ghost base = self@.with_staged(staged);
        self.commit_presented_staged_popup(staged, actions);
        proof {
            lemma_popup_position(base.popups, popup_id);
        }
        if let Some(index) = self.popup_index(popup_id) {
            self.popups[index].presented_trigger = None;
            self.popups[index].guard_root_window = 0;
            proof {
                let entry = PopupEntry {
                    presented_trigger: None,
                    guard_root_window: 0,
                    ..base.popups[index as int]
                };
                assert(self.popups@ =~= base.popups.update(index as int, entry));
                lemma_update_keeps_wf(base, index as int, entry);
            }
        }
        self.popup_job_id = Some(job_id);
        self.presented_trigger = None;
        self.popup_guard_root_window = 0;
        self.active_popup_id = Some(popup_id);
        self.popup_failure_reported = false;
        proof {
            assert(self@.wf());
        }
    }
}

// The stream.

/// What the end of a stream leads to.
#[derive(Debug, PartialEq, Eq)]
pub enum FinishOutcome {
    Ignored,
    /// Show the output, and record the request where there is one.
    Completed { popup: Option<PopupId>, request: Option<ActiveRequest>, output: String },
    /// Show an error.
    Failed { popup: Option<PopupId>, message: String },
    Cancelled,
}

/// What the list of jobs is told of a stream that ended.
#[derive(Clone, Copy, Debug, PartialEq, Eq, Structural)]
pub enum JobEnd {
    /// Nothing.
    Unchanged,
    /// The job has its result, which counts against repeating the request.
    Completed,
    /// The job is over without a result.
    Finished,
}

impl FinishOutcome {
    /// A result completes its job where the request is known; a failure or a
    /// cancellation only finishes it.
    pub fn job_end(&self) -> (end: JobEnd)
        ensures
            end == match *self {
                FinishOutcome::Ignored => JobEnd::Unchanged,
                FinishOutcome::Completed { request, .. } => if request is Some {
                    JobEnd::Completed
                } else {
                    JobEnd::Unchanged
                },
                FinishOutcome::Failed { .. } | FinishOutcome::Cancelled => JobEnd::Finished,
            },
    {
        match self {
            FinishOutcome::Ignored => JobEnd::Unchanged,
            FinishOutcome::Completed { request, .. } => if request.is_some() {
                JobEnd::Completed
            } else {
                JobEnd::Unchanged
            },
            FinishOutcome::Failed { .. } | FinishOutcome::Cancelled => JobEnd::Finished,
        }
    }
}

impl ShellModel {
    /// The job is the current one and its result is what is shown.
    pub open spec fn presents(self, job_id: u64, is_current: bool) -> bool {
        is_current && self.popup_job_id == Some(job_id)
    }

    /// What follows from the end of a stream. `normalized` is the output in
    /// its final form, which counts where the request is known.
    pub open spec fn finish_leads_to(
        self,
        job_id: u64,
        is_current: bool,
        result: Result<(), ProviderError>,
        normalized: Seq<char>,
        outcome: FinishOutcome,
    ) -> bool {
        if !self.presents(job_id, is_current) {
            outcome == FinishOutcome::Ignored
        } else {
            match result {
                Ok(()) => if self.stream_output.len() > 0 {
                    &&& outcome matches FinishOutcome::Completed { popup, request, output }
                    &&& popup == self.active_popup_id
                    &&& request == self.active_request
                    &&& output@ == if self.active_request is Some {
                        normalized
                    } else {
                        self.stream_output
                    }
                } else {
                    &&& outcome matches FinishOutcome::Failed { popup, message }
                    &&& popup == self.active_popup_id
                    &&& message@ == "Provider returned no text"@
                },
                Err(ProviderError::Cancelled) => outcome == FinishOutcome::Cancelled,
                Err(error) => {
                    &&& outcome matches FinishOutcome::Failed { popup, message }
                    &&& popup == self.active_popup_id
                    &&& message@ == provider_error_text(error)
                },
            }
        }
    }

    /// The state after the end of a stream.
    pub open spec fn after_finish(
        self,
        job_id: u64,
        is_current: bool,
        result: Result<(), ProviderError>,
        normalized: Seq<char>,
    ) -> ShellModel {
        if !self.presents(job_id, is_current) {
            self
        } else {
            ShellModel {
                provider_active: false,
                active_request: None,
                stream_output: if result is Ok && self.active_request is Some
                    && self.stream_output.len() > 0 {
                    normalized
                } else {
                    self.stream_output
                },
                ..self
            }
        }
    }
}

impl Shell {
    /// A piece of the output arrived. It is kept, and shown in the popup
    /// returned, only if it belongs to what is shown.
    pub fn handle_delta(&mut self, job_id: u64, is_current: bool, delta: &str) -> (popup: Option<
        PopupId,
    >)
        requires
            old(self)@.wf(),
        ensures
            popup == if old(self)@.presents(job_id, is_current) {
                old(self)@.active_popup_id
            } else {
                None
            },
            final(self)@ == if old(self)@.presents(job_id, is_current) {
                ShellModel { stream_output: old(self)@.stream_output + delta@, ..old(self)@ }
            } else {
                old(self)@
            },
            final(self)@.wf(),
    {
        let ghost before = self@;
        let shown: bool = match self.popup_job_id {
            Some(current) => is_current && current == job_id,
            None => false,
        };
        if !shown {
            return None;
        }
        self.stream_output.append(delta);
        proof {
            assert forall|id: PopupId| is_registered(before.popups, id) implies is_registered(
                self@.popups,
                id,
            ) by {}
        }
        self.active_popup_id
    }

    /// A stream ended.
    pub fn handle_finished(
        &mut self,
        job_id: u64,
        is_current: bool,
        result: Result<(), ProviderError>,
        normalized: String,
    ) -> (outcome: FinishOutcome)
        requires
            old(self)@.wf(),
        ensures
            old(self)@.finish_leads_to(job_id, is_current, result, normalized@, outcome),
            final(self)@ == old(self)@.after_finish(job_id, is_current, result, normalized@),
            final(self)@.wf(),
    {
        let ghost before = self@;
        let shown: bool = match self.popup_job_id {
            Some(current) => is_current && current == job_id,
            None => false,
        };
        if !shown {
            return FinishOutcome::Ignored;
        }
        self.provider_active = false;
        let request: Option<ActiveRequest> = self.active_request.take();
        let popup: Option<PopupId> = self.active_popup_id;
        let outcome: FinishOutcome = match result {
            Ok(()) => {
                if self.stream_output.as_str().is_empty() {
                    FinishOutcome::Failed { popup, message: copy_of("Provider returned no text") }
                } else {
                    if request.is_some() {
                        self.stream_output = normalized;
                    }
                    FinishOutcome::Completed { popup, request, output: self.stream_output.clone() }
                }
            },
            Err(error) => match error {
                ProviderError::Cancelled => FinishOutcome::Cancelled,
                other => FinishOutcome::Failed { popup, message: provider_error(&other) },
            },
        };
        proof {
            assert forall|id: PopupId| is_registered(before.popups, id) implies is_registered(
                self@.popups,
                id,
            ) by {}
            assert(self@ =~= before.after_finish(job_id, is_current, result, normalized@));
            assert(self@.wf());
        }
        outcome
    }
}

/// A stream that was superseded reports to nobody: its pieces and its end
/// change nothing.
pub proof fn lemma_superseded_stream_is_ignored(
    state: ShellModel,
    job_id: u64,
    is_current: bool,
    result: Result<(), ProviderError>,
    normalized: Seq<char>,
    outcome: FinishOutcome,
)
    requires
        !state.presents(job_id, is_current),
        state.finish_leads_to(job_id, is_current, result, normalized, outcome),
    ensures
        outcome == FinishOutcome::Ignored,
        state.after_finish(job_id, is_current, result, normalized) == state,
{
}

/// What is recorded of a completed request: nothing where its normalized output
/// is empty.
pub fn history_entry(
    active: &ActiveRequest,
    output: &str,
    normalized_output: &str,
    served_from_cache: bool,
    created_at_utc: String,
) -> (entry: Option<CompletedEntry>)
    ensures
        entry is Some <==> normalized_output@.len() > 0,
        entry matches Some(entry) ==> {
            &&& entry.created_at_utc == created_at_utc
            &&& entry.source == active.text.source
            &&& entry.target == active.prepared.target
            &&& entry.context == active.prepared.context
            &&& entry.output@ == output@
            &&& entry.prompt_id == active.prepared.prompt_id
            &&& entry.model == active.prepared.model
            &&& entry.served_from_cache == served_from_cache
        },
{
    if normalized_output.is_empty() {
        return None;
    }
    Some(
        CompletedEntry {
            created_at_utc,
            source: active.text.source,
            target: active.prepared.target.clone(),
            context: crate::extraction::copy_optional(&active.prepared.context),
            output: copy_of(output),
            prompt_id: active.prepared.prompt_id.clone(),
            model: active.prepared.model.clone(),
            served_from_cache,
        },
    )
}

/// What lets a request through each stage, and what does not.
pub proof fn lemma_what_a_stage_asks_for(
    context: AdmissionContext,
    front: isize,
    is_popup: bool,
    event: AdmissionEvent,
)
    ensures
        context.trigger == TriggerKind::Hover && !is_popup && (front
            != context.foreground_guard_root_window || context.foreground_guard_root_window == 0)
            ==> !passes(
            context,
            AdmissionEvent::Foreground { root_window: front, is_popup },
        ),
        context.trigger != TriggerKind::Hover || is_popup || front
            == context.foreground_guard_root_window && front != 0 ==> passes(
            context,
            AdmissionEvent::Foreground { root_window: front, is_popup },
        ),
        passes(context, event) ==> match event {
            AdmissionEvent::Source { present, available, completed, cascade } => present
                && available && completed && cascade is Some,
            AdmissionEvent::Prepared(answer) => answer is Ok,
            AdmissionEvent::CanStart(answer) => answer is Ok,
            AdmissionEvent::Surface(answer) => answer is Ok,
            AdmissionEvent::Presented(shown) => shown,
            _ => true,
        },
        passes(context, AdmissionEvent::Prepared(Ok::<(), RequestRejection>(()))),
        passes(context, AdmissionEvent::CanStart(Ok::<(), String>(()))),
        passes(context, AdmissionEvent::Presented(true)),
{
}

/// A request that is all right is admitted: from the first stage on, answers that
/// find nothing wrong lead to the job, in the place that the request asks for or
/// beside its source.
pub proof fn lemma_a_request_that_is_all_right_is_admitted(
    context: AdmissionContext,
    front: isize,
    beside: ScreenPoint,
    popup: PopupId,
    job_id: u64,
)
    requires
        context.trigger == TriggerKind::Hover ==> front != 0 && front
            == context.foreground_guard_root_window,
    ensures
        ({
            let tail = seq![
                AdmissionEvent::Prepared(Ok::<(), RequestRejection>(())),
                AdmissionEvent::CanStart(Ok::<(), String>(())),
                AdmissionEvent::Surface(Ok::<PopupId, ResultSurfaceError>(popup)),
                AdmissionEvent::Presented(true),
                AdmissionEvent::Started { job_id },
            ];
            let head = if context.has_source {
                seq![
                    AdmissionEvent::Foreground { root_window: front, is_popup: false },
                    AdmissionEvent::Source {
                        present: true,
                        available: true,
                        completed: true,
                        cascade: Some(beside),
                    },
                ]
            } else {
                seq![AdmissionEvent::Foreground { root_window: front, is_popup: false }]
            };
            stage_reached(context, head + tail) == (AdmissionStage::Admitted {
                anchor: if context.has_source {
                    beside
                } else {
                    context.anchor
                },
                job_id,
            })
        }),
{
    let tail = seq![
        AdmissionEvent::Prepared(Ok::<(), RequestRejection>(())),
        AdmissionEvent::CanStart(Ok::<(), String>(())),
        AdmissionEvent::Surface(Ok::<PopupId, ResultSurfaceError>(popup)),
        AdmissionEvent::Presented(true),
        AdmissionEvent::Started { job_id },
    ];
    let first = AdmissionEvent::Foreground { root_window: front, is_popup: false };
    let source = AdmissionEvent::Source {
        present: true,
        available: true,
        completed: true,
        cascade: Some(beside),
    };
    let head = if context.has_source {
        seq![first, source]
    } else {
        seq![first]
    };
    let all = head + tail;
    let n = head.len() as int;
    assert(stage_reached(context, Seq::empty()) == AdmissionStage::Foreground);
    assert(all.take(1).drop_last() =~= Seq::<AdmissionEvent>::empty());
    assert(all.take(1).last() == first);
    let anchor = if context.has_source {
        beside
    } else {
        context.anchor
    };
    if context.has_source {
        assert(stage_reached(context, all.take(1)) == AdmissionStage::Source);
        assert(all.take(2).drop_last() =~= all.take(1));
        assert(all.take(2).last() == source);
    }
    assert(stage_reached(context, all.take(n)) == (AdmissionStage::Prepare { anchor }));
    assert(all.take(n + 1).drop_last() =~= all.take(n));
    assert(all.take(n + 1).last() == tail[0]);
    assert(stage_reached(context, all.take(n + 1)) == (AdmissionStage::CanStart { anchor }));
    assert(all.take(n + 2).drop_last() =~= all.take(n + 1));
    assert(all.take(n + 2).last() == tail[1]);
    assert(stage_reached(context, all.take(n + 2)) == (AdmissionStage::Surface { anchor }));
    assert(all.take(n + 3).drop_last() =~= all.take(n + 2));
    assert(all.take(n + 3).last() == tail[2]);
    assert(stage_reached(context, all.take(n + 3)) == (AdmissionStage::Present { anchor }));
    assert(all.take(n + 4).drop_last() =~= all.take(n + 3));
    assert(all.take(n + 4).last() == tail[3]);
    assert(stage_reached(context, all.take(n + 4)) == (AdmissionStage::Start { anchor }));
    assert(all.take(n + 5).drop_last() =~= all.take(n + 4));
    assert(all.take(n + 5).last() == tail[4]);
    assert(all.take(n + 5) =~= all);
}

/// Only the hotkey is answered in words, with the fault of the configuration where
/// there is one; a window that cannot be opened is reported for every trigger.
pub proof fn lemma_refusals_speak_to_the_hotkey(
    context: AdmissionContext,
    stage: AdmissionStage,
    event: AdmissionEvent,
    refusal: Refusal,
)
    requires
        is_refusal(context, stage, event, refusal),
    ensures
        refusal is LocalError ==> context.trigger == TriggerKind::Manual,
        context.trigger == TriggerKind::Manual && (event matches AdmissionEvent::Prepared(
            Err(_),
        )) && context.startup_error is Some ==> (refusal matches Refusal::LocalError {
            message,
            ..
        } && message@ == context.startup_error.unwrap()@),
        context.trigger == TriggerKind::Manual && (event matches AdmissionEvent::CanStart(
            Err(_),
        )) ==> refusal is LocalError,
        event == AdmissionEvent::Presented(false) ==> refusal == Refusal::Unavailable,
        event == AdmissionEvent::Surface(
            Err::<PopupId, ResultSurfaceError>(ResultSurfaceError::Unavailable),
        ) ==> refusal == Refusal::Unavailable,
        event is Foreground || event is Source ==> refusal == Refusal::Silent,
{
}

/// A committed request is the current one: its popup, its job, its trigger and its
/// place are those shown, its popup can repeat it, and what was streamed before is
/// gone. It is awaited exactly where its result is not known yet.
pub proof fn lemma_a_committed_request_is_the_current_one(state: ShellModel, admitted: Admitted)
    requires
        state.wf(),
        state.can_stage(admitted.staged),
        is_registered(state.with_staged(admitted.staged).popups, admitted.popup_id),
    ensures
        ({
            let after = state.after_commit(admitted);
            let spec = admitted.request.pending.spec;
            &&& after.active_popup_id == Some(admitted.popup_id)
            &&& after.popup_job_id == Some(admitted.job_id)
            &&& after.last_request == Some(spec)
            &&& after.presented_trigger == Some(spec.trigger)
            &&& after.popup_anchor == admitted.anchor
            &&& after.popup_guard_root_window == spec.foreground_guard_root_window
            &&& !after.popup_failure_reported
            &&& exists|i: int|
                0 <= i < after.popups.len() && (#[trigger] after.popups[i]).id == admitted.popup_id
                    && after.popups[i].last_request == Some(spec) && after.popups[i].last_text
                    == Some(admitted.request.text) && after.popups[i].presented_trigger == Some(
                    spec.trigger,
                ) && after.popups[i].anchor == admitted.anchor
                    && after.popups[i].guard_root_window == spec.foreground_guard_root_window
            &&& admitted.cached_output is None ==> {
                &&& after.provider_active
                &&& after.stream_output.len() == 0
                &&& after.active_request matches Some(active)
                &&& active.process_id == spec.process_id
                &&& active.text == admitted.request.text
                &&& active.prepared == admitted.prepared
            }
            &&& admitted.cached_output matches Some(output) ==> {
                &&& !after.provider_active
                &&& after.active_request is None
                &&& after.stream_output == output@
            }
        }),
        state.provider_active && admitted.staged is None ==> state.commit_actions(
            admitted,
        ).contains(ShellAction::CancelProvider),
        !state.provider_active && admitted.staged is None ==> state.commit_actions(
            admitted,
        ).len() == 0,
{
    let base = state.with_staged(admitted.staged);
    lemma_popup_position(base.popups, admitted.popup_id);
    let at = popup_position(base.popups, admitted.popup_id).unwrap();
    let after = state.after_commit(admitted);
    assert(after.popups[at].id == admitted.popup_id);
    if state.provider_active && admitted.staged is None {
        assert(state.commit_actions(admitted)[0] == ShellAction::CancelProvider);
    }
}

/// What a stream leads to when it ends. Only the stream that is shown counts. A text
/// completes the request with its final form, no text and every fault but a
/// cancellation are shown in words, and nothing is awaited any more.
pub proof fn lemma_how_a_stream_ends(
    state: ShellModel,
    job_id: u64,
    is_current: bool,
    result: Result<(), ProviderError>,
    normalized: Seq<char>,
    outcome: FinishOutcome,
)
    requires
        state.finish_leads_to(job_id, is_current, result, normalized, outcome),
    ensures
        ({
            let counts = is_current && state.popup_job_id == Some(job_id);
            let after = state.after_finish(job_id, is_current, result, normalized);
            &&& !counts ==> outcome == FinishOutcome::Ignored && after == state
            &&& counts ==> after.active_request is None && !after.provider_active
            &&& counts ==> after.popups == state.popups && after.active_popup_id
                == state.active_popup_id && after.popup_job_id == state.popup_job_id
            &&& counts && result is Ok && state.stream_output.len() > 0 ==> {
                &&& outcome matches FinishOutcome::Completed { popup, request, output }
                &&& popup == state.active_popup_id
                &&& request == state.active_request
                &&& state.active_request is Some ==> output@ == normalized
                &&& state.active_request is None ==> output@ == state.stream_output
                &&& after.stream_output == output@
            }
            &&& counts && result is Ok && state.stream_output.len() == 0 ==> {
                &&& outcome matches FinishOutcome::Failed { popup, message }
                &&& popup == state.active_popup_id
                &&& message@.len() > 0
            }
            &&& counts && result == Err::<(), _>(ProviderError::Cancelled) ==> outcome
                == FinishOutcome::Cancelled
            &&& counts && result is Err && result != Err::<(), _>(ProviderError::Cancelled) ==> {
                &&& outcome matches FinishOutcome::Failed { popup, message }
                &&& popup == state.active_popup_id
                &&& message@ == provider_error_text(result->Err_0)
            }
        }),
{
    reveal_strlit("Provider returned no text");
}

// What the operations do to the shell.

/// What is shown of a request is its sentence, or its target where it has none;
/// a request that was answered before is complete at once, any other is not.
pub proof fn lemma_what_a_commit_shows(
    shell: &mut Shell,
    admitted: Admitted,
    actions: &mut Vec<ShellAction>,
    outcome: CommitOutcome,
)
    requires
        call_ensures(Shell::commit_request, (shell, admitted, actions), outcome),
    ensures
        admitted.prepared.context matches Some(sentence) ==> outcome.input@ == sentence@,
        admitted.prepared.context is None ==> outcome.input@ == admitted.prepared.target@,
        admitted.cached_output is Some <==> outcome.completed is Some,
        outcome.completed matches Some(done) ==> done.text == admitted.request.text && done.prepared
            == admitted.prepared && done.cache == admitted.cache && done.process_id
            == admitted.request.pending.spec.process_id,
        admitted.cached_output matches Some(output) ==> final(shell)@.stream_output == output@
            && !final(shell)@.provider_active && final(shell)@.active_request is None,
        admitted.cached_output is None ==> final(shell)@.provider_active
            && final(shell)@.active_request is Some && final(shell)@.stream_output.len() == 0,
{
}

/// Text that arrives for the job on show is appended to what came before, and
/// goes to its popup; text of any other job is dropped.
pub proof fn lemma_text_is_appended_in_order(
    shell: &mut Shell,
    job_id: u64,
    is_current: bool,
    delta: &str,
    popup: Option<PopupId>,
)
    requires
        call_ensures(Shell::handle_delta, (shell, job_id, is_current, delta), popup),
    ensures
        is_current && old(shell)@.popup_job_id == Some(job_id) ==> final(shell)@.stream_output
            == old(shell)@.stream_output + delta@ && popup == old(shell)@.active_popup_id,
        !is_current || old(shell)@.popup_job_id != Some(job_id) ==> final(shell)@ == old(shell)@
            && popup is None,
        final(shell)@.popups == old(shell)@.popups,
        final(shell)@.active_request == old(shell)@.active_request,
        final(shell)@.popup_job_id == old(shell)@.popup_job_id,
{
}

/// A local message takes a popup of its own: it is the one on show, under its
/// job, and belongs to no trigger and no window, so that nothing closes it.
pub proof fn lemma_a_local_message_is_on_show(
    shell: &mut Shell,
    popup_id: PopupId,
    job_id: u64,
    staged: Option<StagedPopup>,
    actions: &mut Vec<ShellAction>,
    outcome: (),
    i: int,
)
    requires
        is_registered(old(shell)@.with_staged(staged).popups, popup_id),
        call_ensures(
            Shell::commit_local_error,
            (shell, popup_id, job_id, staged, actions),
            outcome,
        ),
    ensures
        final(shell)@.popup_job_id == Some(job_id),
        final(shell)@.active_popup_id == Some(popup_id),
        final(shell)@.presented_trigger is None,
        final(shell)@.popup_guard_root_window == 0,
        !final(shell)@.popup_failure_reported,
        staged is None ==> final(actions)@ == old(actions)@
            && final(shell)@.popups.len() == old(shell)@.popups.len()
            && final(shell)@.last_request == old(shell)@.last_request,
        staged is None && 0 <= i < old(shell)@.popups.len() && old(shell)@.popups[i].id != popup_id
            ==> final(shell)@.popups[i] == old(shell)@.popups[i],
        final(shell)@.wf() && 0 <= i < final(shell)@.popups.len() && final(shell)@.popups[i].id
            == popup_id ==> final(shell)@.popups[i].presented_trigger is None
                && final(shell)@.popups[i].guard_root_window == 0,
{
    let base = old(shell)@.with_staged(staged);
    lemma_popup_position(base.popups, popup_id);
    let at = popup_position(base.popups, popup_id).unwrap();
    assert(final(shell)@.popups[at].id == popup_id);
}

/// A popup that cannot be had is reported once.
pub proof fn lemma_a_missing_popup_is_reported_once(shell: &mut Shell, report: bool)
    requires
        call_ensures(Shell::report_unavailable, (shell,), report),
    ensures
        report <==> !old(shell)@.popup_failure_reported,
        final(shell)@.popup_failure_reported,
        final(shell)@.popups == old(shell)@.popups,
{
}

/// An answer is recorded as it was asked and given; without any text it is not
/// recorded.
pub proof fn lemma_an_answer_is_recorded_as_it_was(
    active: ActiveRequest,
    output: &str,
    normalized: &str,
    cached: bool,
    created: String,
    entry: Option<CompletedEntry>,
)
    requires
        call_ensures(history_entry, (&active, output, normalized, cached, created), entry),
    ensures
        entry is None <==> normalized@.len() == 0,
        entry matches Some(entry) ==> entry.output@ == output@ && entry.target
            == active.prepared.target && entry.context == active.prepared.context && entry.prompt_id
            == active.prepared.prompt_id && entry.model == active.prepared.model && entry.source
            == active.text.source && entry.served_from_cache == cached && entry.created_at_utc
            == created,
{
}

/// A job ends as completed only with an answer to a known request.
pub proof fn lemma_how_a_job_ends(outcome: FinishOutcome, end: JobEnd)
    requires
        call_ensures(FinishOutcome::job_end, (&outcome,), end),
    ensures
        end == JobEnd::Completed <==> (outcome matches FinishOutcome::Completed { request, .. }
            && request is Some),
        end == JobEnd::Finished <==> outcome is Failed || outcome is Cancelled,
{
}

/// Two requests share a cache entry only where source, endpoint and model are
/// the same as far as the joined name tells: the endpoint is followed by a bar
/// and the model.
pub proof fn lemma_the_cache_is_told_who_answers(
    shell: Shell,
    text: TextContext,
    prepared: PreparedText,
    identity: CacheIdentity,
)
    requires
        call_ensures(Shell::cache_identity, (&shell, &text, &prepared), identity),
    ensures
        identity.provider@.len() == shell@.config.endpoint.len() + 1 + prepared.model@.len(),
        identity.provider@.take(shell@.config.endpoint.len() as int) == shell@.config.endpoint,
        identity.provider@[shell@.config.endpoint.len() as int] == '|',
        identity.provider@.skip(shell@.config.endpoint.len() as int + 1) == prepared.model@,
        identity.source@ == source_name(text.source),
{
    reveal_strlit("|");
}

/// Why a request could not start is told to the hotkey in the words of the
/// refusal, at the place of the request; a fault of the configuration comes
/// first.
pub proof fn lemma_a_refusal_is_told_in_its_words(
    context: AdmissionContext,
    stage: AdmissionStage,
    event: AdmissionEvent,
    next: AdmissionStage,
)
    requires
        admission_event_fits(stage, event),
        call_ensures(admission_step, (&context, stage, event), next),
    ensures
        passes(context, event) <==> !(next is Refused),
        passes(context, event) ==> next == stage_behind(context, stage, event),
        context.trigger == TriggerKind::Manual ==> (event matches AdmissionEvent::CanStart(
            Err(reason),
        ) ==> (next matches AdmissionStage::Refused(Refusal::LocalError { message, .. }) && message@
            == reason@)),
        context.trigger == TriggerKind::Manual && context.startup_error is None ==> (
        event matches AdmissionEvent::Prepared(Err(rejection)) ==> (
        next matches AdmissionStage::Refused(Refusal::LocalError { message, .. }) && message@
            == request_error_text(rejection))),
        context.trigger == TriggerKind::Manual ==> (context.startup_error matches Some(error) ==> (
        event matches AdmissionEvent::Prepared(Err(_)) ==> (next matches AdmissionStage::Refused(
            Refusal::LocalError { message, .. },
        ) && message@ == error@))),
{
}

/// A stream of another job changes nothing; the end of the shown one ends the
/// request, and its text is what is shown last.
pub proof fn lemma_the_end_of_a_stream_ends_the_request(
    shell: &mut Shell,
    job_id: u64,
    is_current: bool,
    result: Result<(), ProviderError>,
    normalized: String,
    outcome: FinishOutcome,
)
    requires
        call_ensures(
            Shell::handle_finished,
            (shell, job_id, is_current, result, normalized),
            outcome,
        ),
    ensures
        !is_current || old(shell)@.popup_job_id != Some(job_id) ==> outcome
            == FinishOutcome::Ignored && final(shell)@ == old(shell)@,
        is_current && old(shell)@.popup_job_id == Some(job_id) ==> {
            &&& final(shell)@.active_request is None && !final(shell)@.provider_active
            &&& final(shell)@.popups == old(shell)@.popups
            &&& result == Err::<(), ProviderError>(ProviderError::Cancelled) ==> outcome
                == FinishOutcome::Cancelled
            &&& result is Ok && old(shell)@.stream_output.len() == 0 ==> outcome is Failed
            &&& result is Ok && old(shell)@.stream_output.len() > 0 ==> (
            outcome matches FinishOutcome::Completed { popup, request, output }
                && popup == old(shell)@.active_popup_id && request == old(shell)@.active_request
                && (
            request is Some ==> output@ == normalized@))
        },
{
}

} // verus!
