//! From an extracted text to a result on the screen: finding or making a
//! popup, admitting the request, and following the provider's stream.

use crate::geometry::ScreenPoint;
use crate::popups::{
    following_id, first_id, id_after, next_unused_popup_id, oldest_evictable,
    lemma_oldest_evictable, oldest_evictable_popup, popup_can_be_reused, protected_capacity_error,
    PopupEvictionCandidate, PopupId, ResultSurfaceError, MAX_VISIBLE_POPUPS,
};
use crate::shell::{
    is_registered, lemma_popup_position, lemma_registered_after_removal,
    lemma_removal_leaves_no_reference, popup_position,
    PopupEntry, PopupFacts, RequestSpec, Shell, ShellAction, ShellModel,
};
use crate::shell_input::{is_pinned, pinned};
use vstd::prelude::*;

verus! {

/// The popup shows a complete result, as far as is known.
pub open spec fn is_completed(facts: Seq<PopupFacts>, id: PopupId) -> bool
    decreases facts.len(),
{
    if facts.len() == 0 {
        false
    } else if facts[0].id == id {
        facts[0].completed
    } else {
        is_completed(facts.drop_first(), id)
    }
}

fn completed(facts: &Vec<PopupFacts>, id: PopupId) -> (completed: bool)
    ensures
        completed == is_completed(facts@, id),
{
    let mut i: usize = 0;
    proof {
        assert(facts@.skip(0) =~= facts@);
    }
    while i < facts.len()
        invariant
            i <= facts@.len(),
            is_completed(facts@, id) == is_completed(facts@.skip(i as int), id),
        decreases facts@.len() - i,
    {
        if facts[i].id == id {
            return facts[i].completed;
        }
        proof {
            assert(facts@.skip(i as int).drop_first() =~= facts@.skip(i as int + 1));
        }
        i = i + 1;
    }
    false
}

// A popup for a result.

/// What a popup is needed for.
#[derive(Clone, Copy, Debug, PartialEq, Eq, Structural)]
pub struct EnsureRequest {
    /// The popup that the result belongs in.
    pub destination: Option<PopupId>,
    /// The popup that the text was read from.
    pub parent: Option<PopupId>,
    /// No other popup may be reused.
    pub force_new: bool,
}

/// What finding a popup does next.
#[derive(Clone, Copy, Debug, PartialEq, Eq, Structural)]
pub enum EnsureStep {
    /// Move the native window; it is reused unless it is the destination.
    Reanchor { id: PopupId, reused: bool },
    /// Create a native window and show it.
    Show { id: PopupId },
    /// Create a native window and keep it hidden; it replaces another one.
    Stage { id: PopupId, evict: PopupId },
    /// A popup is ready.
    Ready { id: PopupId },
    Unavailable,
}

pub open spec fn eviction_candidate(facts: Seq<PopupFacts>, entry: PopupEntry) -> PopupEvictionCandidate {
    PopupEvictionCandidate {
        id: entry.id,
        created_order: entry.created_order,
        pinned: is_pinned(facts, entry.id),
        completed: is_completed(facts, entry.id),
    }
}

pub open spec fn eviction_candidates(popups: Seq<PopupEntry>, facts: Seq<PopupFacts>) -> Seq<
    PopupEvictionCandidate,
> {
    popups.map_values(|entry: PopupEntry| eviction_candidate(facts, entry))
}

/// The popup that gives way to a new one.
pub open spec fn evicted_popup(
    state: ShellModel,
    facts: Seq<PopupFacts>,
    parent: Option<PopupId>,
) -> Option<PopupId> {
    match oldest_evictable(
        eviction_candidates(state.popups, facts),
        parent,
        state.active_popup_id,
    ) {
        Some(i) => Some(state.popups[i].id),
        None => None,
    }
}

/// The last popup that is not pinned.
pub open spec fn reusable_popup(popups: Seq<PopupEntry>, facts: Seq<PopupFacts>) -> Option<PopupId>
    decreases popups.len(),
{
    if popups.len() == 0 {
        None
    } else if !is_pinned(facts, popups.last().id) {
        Some(popups.last().id)
    } else {
        reusable_popup(popups.drop_last(), facts)
    }
}

/// The identifier is the first free one in the cycle.
pub open spec fn is_next_id(state: ShellModel, id: PopupId) -> bool {
    &&& id != 0
    &&& !is_registered(state.popups, id)
    &&& exists|k: nat|
        id == #[trigger] id_after(first_id(state.next_popup_id), k) && forall|j: nat|
            j < k ==> is_registered(
                state.popups,
                #[trigger] id_after(first_id(state.next_popup_id), j),
            )
}

impl ShellModel {
    /// What making a new popup comes to: shown while there is room, staged in
    /// the place of one that gives way, or not at all.
    pub open spec fn creates(
        self,
        after: ShellModel,
        parent: Option<PopupId>,
        facts: Seq<PopupFacts>,
        step: EnsureStep,
    ) -> bool {
        if self.popups.len() < MAX_VISIBLE_POPUPS {
            step matches EnsureStep::Show { id } && is_next_id(self, id) && after == (ShellModel {
                next_popup_id: following_id(id),
                ..self
            })
        } else {
            match evicted_popup(self, facts, parent) {
                None => step == EnsureStep::Unavailable && after == self,
                Some(oldest) => step matches EnsureStep::Stage { id, evict } && evict == oldest
                    && is_next_id(self, id) && after == (ShellModel {
                    next_popup_id: following_id(id),
                    ..self
                }),
            }
        }
    }

    /// What finding another popup than the destination comes to: the last one
    /// that is not pinned is reused, unless a new one is asked for.
    pub open spec fn reuses_or_creates(
        self,
        after: ShellModel,
        request: EnsureRequest,
        facts: Seq<PopupFacts>,
        step: EnsureStep,
    ) -> bool {
        match reusable_popup(self.popups, facts) {
            Some(id) if !request.force_new => step == (EnsureStep::Reanchor { id, reused: true })
                && after == self,
            _ => self.creates(after, request.parent, facts, step),
        }
    }
}

impl ShellModel {
    /// What beginning to find a popup comes to: a destination that is
    /// registered is asked first; one that is not is forgotten.
    pub open spec fn begins_finding(
        self,
        after: ShellModel,
        request: EnsureRequest,
        facts: Seq<PopupFacts>,
        step: EnsureStep,
    ) -> bool {
        match request.destination {
            Some(id) if is_registered(self.popups, id) => step == (EnsureStep::Reanchor {
                id,
                reused: false,
            }) && after == self,
            Some(id) => self.without_popup(id).reuses_or_creates(after, request, facts, step),
            None => self.reuses_or_creates(after, request, facts, step),
        }
    }

    /// What follows once the window of the popup `id` was, or was not, moved.
    pub open spec fn reanchors(
        self,
        after: ShellModel,
        request: EnsureRequest,
        id: PopupId,
        reused: bool,
        alive: bool,
        facts: Seq<PopupFacts>,
        step: EnsureStep,
    ) -> bool {
        if alive {
            step == (EnsureStep::Ready { id }) && after == self
        } else if reused {
            self.without_popup(id).creates(after, request.parent, facts, step)
        } else {
            self.without_popup(id).reuses_or_creates(after, request, facts, step)
        }
    }

    /// The state once the window of the new popup `id` was, or was not,
    /// created.
    pub open spec fn showing(
        self,
        id: PopupId,
        anchor: ScreenPoint,
        parent: Option<PopupId>,
        created: bool,
    ) -> ShellModel {
        if created {
            ShellModel { popups: self.popups.push(fresh_entry(id, anchor, parent)), ..self }
        } else {
            self
        }
    }
}

impl Shell {
    fn candidates(&self, facts: &Vec<PopupFacts>) -> (candidates: Vec<PopupEvictionCandidate>)
        ensures
            candidates@ == eviction_candidates(self.popups@, facts@),
    {
        let mut candidates: Vec<PopupEvictionCandidate> = Vec::new();
        let mut i: usize = 0;
        while i < self.popups.len()
            invariant
                i <= self.popups@.len(),
                candidates@ == eviction_candidates(self.popups@.take(i as int), facts@),
            decreases self.popups@.len() - i,
        {
            let id: PopupId = self.popups[i].id;
            candidates.push(
                PopupEvictionCandidate {
                    id,
                    created_order: self.popups[i].created_order,
                    pinned: pinned(facts, id),
                    completed: completed(facts, id),
                },
            );
            i = i + 1;
            proof {
                assert(candidates@ =~= eviction_candidates(self.popups@.take(i as int), facts@));
            }
        }
        proof {
            assert(self.popups@.take(i as int) =~= self.popups@);
        }
        candidates
    }

    fn eviction(&self, facts: &Vec<PopupFacts>, parent: Option<PopupId>) -> (evict: Option<PopupId>)
        ensures
            evict == evicted_popup(self@, facts@, parent),
    {
        let candidates: Vec<PopupEvictionCandidate> = self.candidates(facts);
        proof {
            lemma_oldest_evictable(candidates@, parent, self.active_popup_id);
        }
        oldest_evictable_popup(candidates.as_slice(), parent, self.active_popup_id)
    }

    fn reusable(&self, facts: &Vec<PopupFacts>) -> (id: Option<PopupId>)
        ensures
            id == reusable_popup(self.popups@, facts@),
    {
        let mut i: usize = self.popups.len();
        proof {
            assert(self.popups@.take(i as int) =~= self.popups@);
        }
        while i > 0
            invariant
                i <= self.popups@.len(),
                reusable_popup(self.popups@, facts@) == reusable_popup(
                    self.popups@.take(i as int),
                    facts@,
                ),
            decreases i,
        {
            let id: PopupId = self.popups[i - 1].id;
            if popup_can_be_reused(pinned(facts, id)) {
                return Some(id);
            }
            proof {
                assert(self.popups@.take(i as int).drop_last() =~= self.popups@.take(
                    i as int - 1,
                ));
            }
            i = i - 1;
        }
        None
    }

    fn allocate_popup_id(&mut self) -> (id: PopupId)
        requires
            old(self)@.wf(),
        ensures
            is_next_id(old(self)@, id),
            final(self)@ == (ShellModel { next_popup_id: following_id(id), ..old(self)@ }),
            final(self)@.wf(),
    {
        let ghost before = self@;
        let mut existing: Vec<PopupId> = Vec::new();
        let mut i: usize = 0;
        while i < self.popups.len()
            invariant
                i <= self.popups@.len(),
                existing@.len() == i,
                forall|j: int| 0 <= j < i ==> existing@[j] == (#[trigger] self.popups@[j]).id,
            decreases self.popups@.len() - i,
        {
            existing.push(self.popups[i].id);
            i = i + 1;
        }
        let (id, next_id) = next_unused_popup_id(self.next_popup_id, existing.as_slice());
        proof {
            assert forall|other: PopupId| existing@.contains(other) == is_registered(
                before.popups,
                other,
            ) by {
                if existing@.contains(other) {
                    let k = existing@.index_of(other);
                    assert(before.popups[k].id == other);
                }
                if is_registered(before.popups, other) {
                    let k = choose|k: int|
                        0 <= k < before.popups.len() && (#[trigger] before.popups[k]).id == other;
                    assert(existing@[k] == other);
                }
            }
            let first = first_id(before.next_popup_id);
            let k = choose|k: nat|
                id == #[trigger] id_after(first, k) && forall|j: nat|
                    j < k ==> existing@.contains(#[trigger] id_after(first, j));
            assert(id == id_after(first, k) && forall|j: nat|
                j < k ==> is_registered(before.popups, #[trigger] id_after(first, j)));
        }
        self.next_popup_id = next_id;
        proof {
            assert forall|other: PopupId| is_registered(
                before.popups,
                other,
            ) implies is_registered(self@.popups, other) by {}
        }
        id
    }

    fn create_popup(&mut self, parent: Option<PopupId>, facts: &Vec<PopupFacts>) -> (step:
        EnsureStep)
        requires
            old(self)@.wf(),
        ensures
            old(self)@.creates(final(self)@, parent, facts@, step),
            final(self)@.wf(),
    {
        if self.popups.len() >= MAX_VISIBLE_POPUPS {
            return match self.eviction(facts, parent) {
                Some(evict) => {
                    let id: PopupId = self.allocate_popup_id();
                    EnsureStep::Stage { id, evict }
                },
                None => EnsureStep::Unavailable,
            };
        }
        let id: PopupId = self.allocate_popup_id();
        EnsureStep::Show { id }
    }

    fn reuse_or_create(&mut self, request: EnsureRequest, facts: &Vec<PopupFacts>) -> (step:
        EnsureStep)
        requires
            old(self)@.wf(),
        ensures
            old(self)@.reuses_or_creates(final(self)@, request, facts@, step),
            final(self)@.wf(),
    {
        if !request.force_new {
            if let Some(id) = self.reusable(facts) {
                return EnsureStep::Reanchor { id, reused: true };
            }
        }
        self.create_popup(request.parent, facts)
    }

    /// Begins to find a popup: the destination is asked first. One that is no
    /// longer registered is forgotten.
    pub fn begin_ensure(
        &mut self,
        request: EnsureRequest,
        facts: &Vec<PopupFacts>,
        actions: &mut Vec<ShellAction>,
    ) -> (step: EnsureStep)
        requires
            old(self)@.wf(),
        ensures
            old(self)@.begins_finding(final(self)@, request, facts@, step),
            final(actions)@ == match request.destination {
                Some(id) if !is_registered(old(self)@.popups, id) => old(actions)@ + old(
                    self,
                )@.removal_actions(id, false),
                _ => old(actions)@,
            },
            final(self)@.wf(),
    {
        if let Some(id) = request.destination {
            proof {
                lemma_popup_position(self@.popups, id);
            }
            if self.popup_index(id).is_some() {
                return EnsureStep::Reanchor { id, reused: false };
            }
            self.remove_popup(id, false, actions);
        }
        self.reuse_or_create(request, facts)
    }

    /// The popup of a `Reanchor` step is, or is not, alive. A dead one is
    /// removed and another one is looked for.
    pub fn reanchored(
        &mut self,
        request: EnsureRequest,
        id: PopupId,
        reused: bool,
        alive: bool,
        facts: &Vec<PopupFacts>,
        actions: &mut Vec<ShellAction>,
    ) -> (step: EnsureStep)
        requires
            old(self)@.wf(),
        ensures
            old(self)@.reanchors(final(self)@, request, id, reused, alive, facts@, step),
            final(actions)@ == if alive {
                old(actions)@
            } else {
                old(actions)@ + old(self)@.removal_actions(id, false)
            },
            final(self)@.wf(),
    {
        if alive {
            return EnsureStep::Ready { id };
        }
        self.remove_popup(id, false, actions);
        if reused {
            self.create_popup(request.parent, facts)
        } else {
            self.reuse_or_create(request, facts)
        }
    }

    /// The window of a `Show` step was, or was not, created.
    pub fn shown(&mut self, request: EnsureRequest, id: PopupId, anchor: ScreenPoint, created: bool) -> (step:
        EnsureStep)
        requires
            old(self)@.wf(),
            !old(self)@.rest_enabled,
            old(self)@.popups.len() < MAX_VISIBLE_POPUPS,
            id != 0,
            !is_registered(old(self)@.popups, id),
            old(self)@.is_live(request.parent),
        ensures
            step == if created {
                EnsureStep::Ready { id }
            } else {
                EnsureStep::Unavailable
            },
            final(self)@ == old(self)@.showing(id, anchor, request.parent, created),
            final(self)@.wf(),
    {
        let ghost before = self@;
        if !created {
            return EnsureStep::Unavailable;
        }
        self.popups.push(new_entry(id, anchor, request.parent));
        proof {
            lemma_push_keeps_wf(before, fresh_entry(id, anchor, request.parent));
        }
        EnsureStep::Ready { id }
    }
}

/// A popup that shows nothing yet.
pub open spec fn fresh_entry(id: PopupId, anchor: ScreenPoint, parent: Option<PopupId>) -> PopupEntry {
    PopupEntry {
        id,
        last_request: None,
        last_text: None,
        presented_trigger: None,
        guard_root_window: 0,
        anchor,
        parent,
        created_order: id as u64,
    }
}

fn new_entry(id: PopupId, anchor: ScreenPoint, parent: Option<PopupId>) -> (entry: PopupEntry)
    ensures
        entry == fresh_entry(id, anchor, parent),
{
    PopupEntry {
        id,
        last_request: None,
        last_text: None,
        presented_trigger: None,
        guard_root_window: 0,
        anchor,
        parent,
        created_order: id as u64,
    }
}

proof fn lemma_push_keeps_wf(state: ShellModel, entry: PopupEntry)
    requires
        state.wf(),
        !state.rest_enabled,
        state.popups.len() < MAX_VISIBLE_POPUPS,
        entry.id != 0,
        !is_registered(state.popups, entry.id),
        state.is_live(entry.parent),
    ensures
        (ShellModel { popups: state.popups.push(entry), ..state }).wf(),
        is_registered(state.popups.push(entry), entry.id),
        forall|id: PopupId|
            is_registered(state.popups, id) ==> is_registered(state.popups.push(entry), id),
{
    let popups = state.popups.push(entry);
    let after = ShellModel { popups, ..state };
    assert(popups.last() == entry);
    assert forall|id: PopupId| is_registered(state.popups, id) implies is_registered(popups, id) by {
        let i = choose|i: int|
            0 <= i < state.popups.len() && (#[trigger] state.popups[i]).id == id;
        assert(popups[i].id == id);
    }
    assert forall|i: int, j: int| 0 <= i < j < popups.len() implies (#[trigger] popups[i]).id != (
    #[trigger] popups[j]).id by {
        if j == popups.len() - 1 {
            assert(state.popups[i].id != entry.id);
        }
    }
    assert forall|i: int| 0 <= i < popups.len() implies after.is_live(
        (#[trigger] popups[i]).parent,
    ) by {
        if i < state.popups.len() {
            assert(popups[i] == state.popups[i]);
        }
    }
}

/// A popup that replaces another one once its result is presented.
#[derive(Debug, PartialEq, Eq)]
pub struct StagedPopup {
    pub entry: PopupEntry,
    pub evict: PopupId,
}

/// The popup of a `Stage` step, once its hidden window exists.
pub fn stage_popup(id: PopupId, evict: PopupId, anchor: ScreenPoint, parent: Option<PopupId>) -> (staged:
    StagedPopup)
    ensures
        staged == (StagedPopup { entry: fresh_entry(id, anchor, parent), evict }),
{
    StagedPopup { entry: new_entry(id, anchor, parent), evict }
}

/// What an error, or the choice of a profile, needs of a popup: any one that is
/// not pinned, or else a new one.
pub fn unbound_request() -> (request: EnsureRequest)
    ensures
        request == (EnsureRequest { destination: None, parent: None, force_new: false }),
{
    EnsureRequest { destination: None, parent: None, force_new: false }
}

/// What a result's request needs of a popup. A text read from a popup gets one
/// of its own.
pub fn surface_request(spec: &RequestSpec) -> (request: EnsureRequest)
    ensures
        request == (EnsureRequest {
            destination: spec.destination_popup_id,
            parent: spec.source_popup_id,
            force_new: spec.source_popup_id is Some && spec.destination_popup_id is None,
        }),
{
    EnsureRequest {
        destination: spec.destination_popup_id,
        parent: spec.source_popup_id,
        force_new: spec.source_popup_id.is_some() && spec.destination_popup_id.is_none(),
    }
}

impl Shell {
    /// Whether there can be no popup for the request, because every popup must
    /// stay.
    pub fn surface_refusal(&self, request: EnsureRequest, facts: &Vec<PopupFacts>) -> (refusal:
        Option<ResultSurfaceError>)
        ensures
            refusal == if request.force_new && self@.popups.len() >= MAX_VISIBLE_POPUPS
                && evicted_popup(self@, facts@, request.parent) is None {
                Some(ResultSurfaceError::ProtectedCapacity)
            } else {
                None
            },
    {
        if request.force_new && self.popups.len() >= MAX_VISIBLE_POPUPS {
            let evict: Option<PopupId> = self.eviction(facts, request.parent);
            return protected_capacity_error(request.force_new, self.popups.len(), evict);
        }
        None
    }

    /// A popup that was found can, or cannot, show a result. A new one that
    /// cannot is removed again.
    pub fn check_surface(
        &mut self,
        id: PopupId,
        created_new: bool,
        available: bool,
        actions: &mut Vec<ShellAction>,
    ) -> (surface: Result<PopupId, ResultSurfaceError>)
        requires
            old(self)@.wf(),
        ensures
            surface == if available {
                Ok(id)
            } else {
                Err(ResultSurfaceError::Unavailable)
            },
            final(self)@ == if !available && created_new {
                old(self)@.without_popup(id)
            } else {
                old(self)@
            },
            final(actions)@ == if !available && created_new {
                old(actions)@ + old(self)@.removal_actions(id, true)
            } else {
                old(actions)@
            },
            final(self)@.wf(),
    {
        if available {
            return Ok(id);
        }
        if created_new {
            self.remove_popup(id, true, actions);
        }
        Err(ResultSurfaceError::Unavailable)
    }
}

/// The number of popups never exceeds the limit: a new window is shown only
/// where there is room, and is otherwise staged to replace a popup that is
/// registered, complete, not pinned, not where a result is being shown, and
/// not where the text came from.
pub proof fn lemma_new_popup_respects_the_limit(
    state: ShellModel,
    after: ShellModel,
    parent: Option<PopupId>,
    facts: Seq<PopupFacts>,
    step: EnsureStep,
)
    requires
        state.wf(),
        state.creates(after, parent, facts, step),
    ensures
        step is Show ==> state.popups.len() < MAX_VISIBLE_POPUPS,
        step matches EnsureStep::Stage { id, evict } ==> {
            &&& is_registered(state.popups, evict)
            &&& !is_pinned(facts, evict)
            &&& is_completed(facts, evict)
            &&& state.active_popup_id != Some(evict)
            &&& parent != Some(evict)
            &&& id != evict
        },
        after.popups == state.popups,
{
    let candidates = eviction_candidates(state.popups, facts);
    lemma_oldest_evictable(candidates, parent, state.active_popup_id);
    if step is Stage {
        let i = oldest_evictable(candidates, parent, state.active_popup_id).unwrap();
        assert(candidates[i] == eviction_candidate(facts, state.popups[i]));
        assert(state.popups[i].id == step->Stage_evict);
    }
}

/// A pinned popup is never reused.
pub proof fn lemma_reused_popup_is_not_pinned(popups: Seq<PopupEntry>, facts: Seq<PopupFacts>)
    ensures
        reusable_popup(popups, facts) matches Some(id) ==> !is_pinned(facts, id)
            && is_registered(popups, id),
    decreases popups.len(),
{
    if popups.len() > 0 {
        if is_pinned(facts, popups.last().id) {
            lemma_reused_popup_is_not_pinned(popups.drop_last(), facts);
            if let Some(id) = reusable_popup(popups.drop_last(), facts) {
                let before = popups.drop_last();
                let i = choose|i: int| 0 <= i < before.len() && (#[trigger] before[i]).id == id;
                assert(popups[i].id == id);
            }
        } else {
            assert(popups[popups.len() - 1].id == popups.last().id);
        }
    }
}

// The whole search for a popup.

/// A state of the search with what it does next.
pub struct Search {
    pub state: ShellModel,
    pub step: EnsureStep,
}

/// One step of the search leads to the next; `succeeded` is what the native
/// window answered. A staged window is kept apart from the popups.
pub open spec fn search_moves(
    before: Search,
    after: Search,
    request: EnsureRequest,
    facts: Seq<PopupFacts>,
    anchor: ScreenPoint,
    succeeded: bool,
) -> bool {
    match before.step {
        EnsureStep::Reanchor { id, reused } => before.state.reanchors(
            after.state,
            request,
            id,
            reused,
            succeeded,
            facts,
            after.step,
        ),
        EnsureStep::Show { id } => {
            &&& after.state == before.state.showing(id, anchor, request.parent, succeeded)
            &&& after.step == if succeeded {
                EnsureStep::Ready { id }
            } else {
                EnsureStep::Unavailable
            }
        },
        EnsureStep::Stage { id, .. } => {
            &&& after.state == before.state
            &&& after.step == if succeeded {
                EnsureStep::Ready { id }
            } else {
                EnsureStep::Unavailable
            }
        },
        EnsureStep::Ready { .. } | EnsureStep::Unavailable => false,
    }
}

/// The search for a popup from the state `start` on.
pub open spec fn is_search(
    start: ShellModel,
    request: EnsureRequest,
    facts: Seq<PopupFacts>,
    anchor: ScreenPoint,
    search: Seq<Search>,
) -> bool {
    &&& search.len() > 0
    &&& start.begins_finding(search[0].state, request, facts, search[0].step)
    &&& forall|k: int|
        #![trigger search[k]]
        0 < k < search.len() ==> search_moves(search[k - 1], search[k], request, facts, anchor, true)
            || search_moves(search[k - 1], search[k], request, facts, anchor, false)
}

/// Every pinned popup but the destination is still registered.
pub open spec fn keeps_pinned(
    before: ShellModel,
    after: ShellModel,
    destination: Option<PopupId>,
    facts: Seq<PopupFacts>,
) -> bool {
    forall|id: PopupId|
        is_registered(before.popups, id) && is_pinned(facts, id) && destination != Some(id)
            ==> is_registered(after.popups, id)
}

/// The popups have different identifiers, and no more than fit.
pub open spec fn are_distinct(popups: Seq<PopupEntry>) -> bool {
    popups.len() <= MAX_VISIBLE_POPUPS && forall|i: int, j: int|
        0 <= i < j < popups.len() ==> (#[trigger] popups[i]).id != (#[trigger] popups[j]).id
}

/// The popup `evict` may give way to the staged one `id`.
pub open spec fn may_give_way(
    state: ShellModel,
    facts: Seq<PopupFacts>,
    parent: Option<PopupId>,
    id: PopupId,
    evict: PopupId,
) -> bool {
    &&& !is_registered(state.popups, id)
    &&& is_registered(state.popups, evict)
    &&& !is_pinned(facts, evict)
    &&& is_completed(facts, evict)
    &&& parent != Some(evict)
    &&& state.active_popup_id != Some(evict)
}

/// What holds at every step of a search.
pub open spec fn search_holds(
    start: ShellModel,
    request: EnsureRequest,
    facts: Seq<PopupFacts>,
    at: Search,
) -> bool {
    &&& are_distinct(at.state.popups)
    &&& keeps_pinned(start, at.state, request.destination, facts)
    &&& match at.step {
        EnsureStep::Reanchor { id, reused } => at.state.wf() && is_registered(at.state.popups, id)
            && if reused {
            !is_pinned(facts, id)
        } else {
            request.destination == Some(id)
        },
        EnsureStep::Show { id } => at.state.wf() && at.state.popups.len() < MAX_VISIBLE_POPUPS
            && !is_registered(at.state.popups, id),
        EnsureStep::Stage { id, evict } => at.state.wf() && may_give_way(
            at.state,
            facts,
            request.parent,
            id,
            evict,
        ),
        EnsureStep::Ready { .. } | EnsureStep::Unavailable => true,
    }
}

proof fn lemma_creating_holds(
    start: ShellModel,
    room: ShellModel,
    request: EnsureRequest,
    facts: Seq<PopupFacts>,
    after: Search,
)
    requires
        room.wf(),
        keeps_pinned(start, room, request.destination, facts),
        room.creates(after.state, request.parent, facts, after.step),
    ensures
        search_holds(start, request, facts, after),
{
    lemma_new_popup_respects_the_limit(room, after.state, request.parent, facts, after.step);
    assert(after.state.popups == room.popups);
    assert(after.state.wf());
}

proof fn lemma_reusing_holds(
    start: ShellModel,
    room: ShellModel,
    request: EnsureRequest,
    facts: Seq<PopupFacts>,
    after: Search,
)
    requires
        room.wf(),
        keeps_pinned(start, room, request.destination, facts),
        room.reuses_or_creates(after.state, request, facts, after.step),
    ensures
        search_holds(start, request, facts, after),
{
    lemma_reused_popup_is_not_pinned(room.popups, facts);
    match reusable_popup(room.popups, facts) {
        Some(_) if !request.force_new => {},
        _ => lemma_creating_holds(start, room, request, facts, after),
    }
}

proof fn lemma_removing_keeps_pinned(
    start: ShellModel,
    state: ShellModel,
    request: EnsureRequest,
    facts: Seq<PopupFacts>,
    id: PopupId,
)
    requires
        state.wf(),
        keeps_pinned(start, state, request.destination, facts),
        request.destination == Some(id) || !is_pinned(facts, id),
    ensures
        state.without_popup(id).wf(),
        keeps_pinned(start, state.without_popup(id), request.destination, facts),
{
    lemma_removal_leaves_no_reference(state, id);
    assert forall|other: PopupId|
        is_registered(start.popups, other) && is_pinned(facts, other) && request.destination != Some(
            other,
        ) implies is_registered(state.without_popup(id).popups, other) by {
        assert(is_registered(state.popups, other));
        lemma_registered_after_removal(state.popups, id, other);
    }
}

/// Finding a popup never takes a pinned one from the user: at every step of the
/// search, whatever the windows answer, there are no more popups than fit, their
/// identifiers differ, and every pinned popup but the destination is still
/// registered. A staged popup is not among them, and the one that is to give way
/// to it is registered, complete, not pinned, not the source of the text and not
/// the active one.
pub proof fn lemma_finding_a_popup_keeps_the_pinned_ones(
    start: ShellModel,
    request: EnsureRequest,
    facts: Seq<PopupFacts>,
    anchor: ScreenPoint,
    search: Seq<Search>,
)
    requires
        start.wf(),
        is_search(start, request, facts, anchor, search),
    ensures
        forall|k: int|
            0 <= k < search.len() ==> {
                let at = #[trigger] search[k];
                &&& are_distinct(at.state.popups)
                &&& keeps_pinned(start, at.state, request.destination, facts)
                &&& at.step matches EnsureStep::Stage { id, evict } ==> may_give_way(
                    at.state,
                    facts,
                    request.parent,
                    id,
                    evict,
                )
            },
{
    assert forall|k: int| 0 <= k < search.len() implies search_holds(
        start,
        request,
        facts,
        #[trigger] search[k],
    ) by {
        lemma_search_holds(start, request, facts, anchor, search, k);
    }
}

proof fn lemma_search_holds(
    start: ShellModel,
    request: EnsureRequest,
    facts: Seq<PopupFacts>,
    anchor: ScreenPoint,
    search: Seq<Search>,
    k: int,
)
    requires
        start.wf(),
        is_search(start, request, facts, anchor, search),
        0 <= k < search.len(),
    ensures
        search_holds(start, request, facts, search[k]),
    decreases k,
{
    let after = search[k];
    if k == 0 {
        match request.destination {
            Some(id) if is_registered(start.popups, id) => {},
            Some(id) => {
                lemma_removing_keeps_pinned(start, start, request, facts, id);
                lemma_reusing_holds(start, start.without_popup(id), request, facts, after);
            },
            None => lemma_reusing_holds(start, start, request, facts, after),
        }
    } else {
        let before = search[k - 1];
        lemma_search_holds(start, request, facts, anchor, search, k - 1);
        match before.step {
            EnsureStep::Reanchor { id, reused } => {
                if after.step == (EnsureStep::Ready { id }) && after.state == before.state {
                } else {
                    lemma_removing_keeps_pinned(start, before.state, request, facts, id);
                    let room = before.state.without_popup(id);
                    if reused {
                        lemma_creating_holds(start, room, request, facts, after);
                    } else {
                        lemma_reusing_holds(start, room, request, facts, after);
                    }
                }
            },
            EnsureStep::Show { id } => {
                let entry = fresh_entry(id, anchor, request.parent);
                let pushed = before.state.popups.push(entry);
                assert forall|other: PopupId| is_registered(
                    before.state.popups,
                    other,
                ) implies is_registered(pushed, other) by {
                    let i = choose|i: int|
                        0 <= i < before.state.popups.len() && (
                        #[trigger] before.state.popups[i]).id == other;
                    assert(pushed[i].id == other);
                }
                assert forall|i: int, j: int| 0 <= i < j < pushed.len() implies (
                #[trigger] pushed[i]).id != (#[trigger] pushed[j]).id by {
                    if j == pushed.len() - 1 {
                        assert(before.state.popups[i].id != id);
                    }
                }
            },
            _ => {},
        }
    }
}

// Presenting a staged popup.

/// What presenting a staged popup does next.
#[derive(Clone, Copy, Debug, PartialEq, Eq, Structural)]
pub enum PresentStep {
    /// Hide the popup that gives way, for now.
    HideEvicted,
    PresentStaged,
    /// Show the popup again that was to give way.
    RestoreEvicted,
    Presented,
    Failed,
}

/// Presenting starts where something is staged.
pub fn begin_present(staged: bool, evict_registered: bool) -> (step: PresentStep)
    ensures
        step == if !staged {
            PresentStep::Presented
        } else if evict_registered {
            PresentStep::HideEvicted
        } else {
            PresentStep::Failed
        },
{
    if !staged {
        PresentStep::Presented
    } else if evict_registered {
        PresentStep::HideEvicted
    } else {
        PresentStep::Failed
    }
}

/// The step after `step` succeeded or failed. A popup that was hidden in vain
/// is shown again.
pub fn present_next(step: PresentStep, succeeded: bool) -> (next: PresentStep)
    ensures
        next == match step {
            PresentStep::HideEvicted => if succeeded {
                PresentStep::PresentStaged
            } else {
                PresentStep::Failed
            },
            PresentStep::PresentStaged => if succeeded {
                PresentStep::Presented
            } else {
                PresentStep::RestoreEvicted
            },
            PresentStep::RestoreEvicted => PresentStep::Failed,
            PresentStep::Presented => PresentStep::Presented,
            PresentStep::Failed => PresentStep::Failed,
        },
{
    match step {
        PresentStep::HideEvicted => if succeeded {
            PresentStep::PresentStaged
        } else {
            PresentStep::Failed
        },
        PresentStep::PresentStaged => if succeeded {
            PresentStep::Presented
        } else {
            PresentStep::RestoreEvicted
        },
        PresentStep::RestoreEvicted => PresentStep::Failed,
        PresentStep::Presented => PresentStep::Presented,
        PresentStep::Failed => PresentStep::Failed,
    }
}

impl ShellModel {
    /// The state once a staged popup took the place of the one that gives way.
    pub open spec fn with_staged(self, staged: Option<StagedPopup>) -> ShellModel {
        match staged {
            Some(popup) => {
                let room = self.without_popup(popup.evict);
                ShellModel { popups: room.popups.push(popup.entry), ..room }
            },
            None => self,
        }
    }

    pub open spec fn staging_actions(self, staged: Option<StagedPopup>) -> Seq<ShellAction> {
        match staged {
            Some(popup) => self.removal_actions(popup.evict, true),
            None => seq![],
        }
    }

    /// The staged popup can take its place.
    pub open spec fn can_stage(self, staged: Option<StagedPopup>) -> bool {
        staged matches Some(popup) ==> {
            &&& !self.rest_enabled
            &&& is_registered(self.popups, popup.evict)
            &&& popup.entry.id != 0
            &&& !is_registered(self.popups, popup.entry.id)
            &&& self.is_live(popup.entry.parent)
            &&& popup.entry.parent != Some(popup.evict)
        }
    }
}

impl Shell {
    /// Puts a presented popup in the place of the one that gives way.
    pub fn commit_presented_staged_popup(
        &mut self,
        staged: Option<StagedPopup>,
        actions: &mut Vec<ShellAction>,
    )
        requires
            old(self)@.wf(),
            old(self)@.can_stage(staged),
        ensures
            final(self)@ == old(self)@.with_staged(staged),
            final(actions)@ == old(actions)@ + old(self)@.staging_actions(staged),
            final(self)@.wf(),
    {
        let ghost before = self@;
        match staged {
            None => {
                proof {
                    assert(actions@ =~= old(actions)@ + before.staging_actions(staged));
                }
            },
            Some(popup) => {
                let StagedPopup { entry, evict } = popup;
                proof {
                    lemma_removal_leaves_no_reference(before, evict);
                    lemma_room(before, evict, entry.id, entry.parent);
                }
                self.remove_popup(evict, true, actions);
                let ghost room = self@;
                let ghost added = entry;
                self.popups.push(entry);
                proof {
                    lemma_push_keeps_wf(room, added);
                    assert(self@ =~= before.with_staged(staged));
                }
            },
        }
    }
}

/// Removing a registered popup makes room, frees its identifier only, and
/// keeps every other popup.
proof fn lemma_room(state: ShellModel, evict: PopupId, id: PopupId, parent: Option<PopupId>)
    requires
        state.wf(),
        is_registered(state.popups, evict),
        !is_registered(state.popups, id),
        state.is_live(parent),
        parent != Some(evict),
    ensures
        state.without_popup(evict).popups.len() < MAX_VISIBLE_POPUPS,
        !is_registered(state.without_popup(evict).popups, id),
        state.without_popup(evict).is_live(parent),
        forall|other: PopupId|
            other != evict && is_registered(state.popups, other) ==> is_registered(
                state.without_popup(evict).popups,
                other,
            ),
{
    lemma_popup_position(state.popups, evict);
    let at = popup_position(state.popups, evict).unwrap();
    let left = state.without_popup(evict).popups;
    let kept = state.popups.remove(at);
    assert forall|i: int| 0 <= i < left.len() implies (#[trigger] left[i]).id == kept[i].id by {}
    if is_registered(left, id) {
        let i = choose|i: int| 0 <= i < left.len() && (#[trigger] left[i]).id == id;
        let k = if i < at {
            i
        } else {
            i + 1
        };
        assert(kept[i] == state.popups[k]);
        assert(state.popups[k].id == id);
    }
    assert forall|other: PopupId| other != evict && is_registered(
        state.popups,
        other,
    ) implies is_registered(left, other) by {
        let i = choose|i: int|
            0 <= i < state.popups.len() && (#[trigger] state.popups[i]).id == other;
        let k = if i < at {
            i
        } else {
            i - 1
        };
        assert(kept[k] == state.popups[i]);
        assert(left[k].id == other);
    }
}

/// What is known of a popup's result counts, and of an unknown one nothing.
pub proof fn lemma_completion_is_that_of_the_popup(facts: Seq<PopupFacts>, id: PopupId, i: int)
    requires
        forall|a: int, b: int|
            0 <= a < b < facts.len() ==> (#[trigger] facts[a]).id != (#[trigger] facts[b]).id,
    ensures
        0 <= i < facts.len() && facts[i].id == id ==> is_completed(facts, id) == facts[i].completed,
        (forall|a: int| 0 <= a < facts.len() ==> (#[trigger] facts[a]).id != id) ==> !is_completed(
            facts,
            id,
        ),
    decreases facts.len(),
{
    if facts.len() > 0 && facts[0].id != id {
        let rest = facts.drop_first();
        assert forall|a: int, b: int| 0 <= a < b < rest.len() implies (#[trigger] rest[a]).id != (
        #[trigger] rest[b]).id by {
            assert(facts[a + 1].id != facts[b + 1].id);
        }
        lemma_completion_is_that_of_the_popup(rest, id, i - 1);
        if forall|a: int| 0 <= a < facts.len() ==> (#[trigger] facts[a]).id != id {
            assert forall|a: int| 0 <= a < rest.len() implies (#[trigger] rest[a]).id != id by {
                assert(facts[a + 1].id != id);
            }
        }
    } else if facts.len() > 0 && 0 < i < facts.len() {
        assert(facts[0].id != facts[i].id);
    }
}

/// The popup that is reused is the last one that is not pinned; there is none only
/// where all are pinned.
pub proof fn lemma_the_last_unpinned_popup_is_reused(
    popups: Seq<PopupEntry>,
    facts: Seq<PopupFacts>,
)
    ensures
        match reusable_popup(popups, facts) {
            Some(id) => exists|i: int|
                0 <= i < popups.len() && (#[trigger] popups[i]).id == id && !is_pinned(facts, id)
                    && forall|j: int|
                    i < j < popups.len() ==> is_pinned(facts, (#[trigger] popups[j]).id),
            None => forall|j: int|
                0 <= j < popups.len() ==> is_pinned(facts, (#[trigger] popups[j]).id),
        },
    decreases popups.len(),
{
    if popups.len() > 0 {
        let front = popups.drop_last();
        lemma_the_last_unpinned_popup_is_reused(front, facts);
        let last = popups.len() - 1;
        assert(popups[last] == popups.last());
        assert forall|j: int| 0 <= j < last implies front[j] == #[trigger] popups[j] by {}
        if is_pinned(facts, popups.last().id) {
            if let Some(id) = reusable_popup(front, facts) {
                let i = choose|i: int|
                    0 <= i < front.len() && (#[trigger] front[i]).id == id && !is_pinned(facts, id)
                        && forall|j: int|
                        i < j < front.len() ==> is_pinned(facts, (#[trigger] front[j]).id);
                assert forall|j: int| i < j < popups.len() implies is_pinned(
                    facts,
                    (#[trigger] popups[j]).id,
                ) by {
                    if j < last {
                        assert(is_pinned(facts, front[j].id));
                    }
                }
                assert(popups[i].id == id);
            }
        } else {
            assert(popups[last].id == popups.last().id);
        }
    }
}

/// How a popup is found for a request without a destination: the last one that is
/// not pinned is used again, unless the request wants one of its own; a new one is
/// shown while there are fewer than four; and beyond that only a complete one that
/// is neither pinned, nor the source, nor active gives way.
pub proof fn lemma_how_a_popup_is_found(
    state: ShellModel,
    after: ShellModel,
    request: EnsureRequest,
    facts: Seq<PopupFacts>,
    step: EnsureStep,
    i: int,
)
    requires
        state.wf(),
        request.destination is None,
        state.begins_finding(after, request, facts, step),
    ensures
        !request.force_new && 0 <= i < state.popups.len() && !is_pinned(facts, state.popups[i].id)
            && (forall|j: int|
            i < j < state.popups.len() ==> is_pinned(facts, (#[trigger] state.popups[j]).id))
            ==> step == (EnsureStep::Reanchor { id: state.popups[i].id, reused: true }),
        (request.force_new || forall|j: int|
            0 <= j < state.popups.len() ==> is_pinned(facts, (#[trigger] state.popups[j]).id))
            && state.popups.len() < 4 ==> step is Show,
        request.force_new && state.popups.len() >= 4 && 0 <= i < state.popups.len() && is_completed(
            facts,
            state.popups[i].id,
        ) && !is_pinned(facts, state.popups[i].id) && request.parent != Some(state.popups[i].id)
            && state.active_popup_id != Some(state.popups[i].id) ==> step is Stage,
        !request.force_new && state.popups.len() >= 4 && (forall|j: int|
            0 <= j < state.popups.len() ==> is_pinned(facts, (#[trigger] state.popups[j]).id))
            ==> step == EnsureStep::Unavailable,
        after.popups == state.popups,
{
    lemma_the_last_unpinned_popup_is_reused(state.popups, facts);
    let candidates = eviction_candidates(state.popups, facts);
    crate::popups::lemma_the_first_made_gives_way(
        candidates,
        request.parent,
        state.active_popup_id,
    );
    if 0 <= i < state.popups.len() {
        assert(candidates[i] == eviction_candidate(facts, state.popups[i]));
        if let Some(id) = reusable_popup(state.popups, facts) {
            let k = choose|k: int|
                0 <= k < state.popups.len() && (#[trigger] state.popups[k]).id == id && !is_pinned(
                    facts,
                    id,
                ) && forall|j: int|
                    k < j < state.popups.len() ==> is_pinned(
                        facts,
                        (#[trigger] state.popups[j]).id,
                    );
            if !is_pinned(facts, state.popups[i].id) && (forall|j: int|
                i < j < state.popups.len() ==> is_pinned(facts, (#[trigger] state.popups[j]).id)) {
                assert(k == i);
            }
        } else {
            assert(is_pinned(facts, state.popups[i].id));
        }
    }
    if forall|j: int|
        0 <= j < state.popups.len() ==> is_pinned(facts, (#[trigger] state.popups[j]).id) {
        assert forall|j: int| 0 <= j < candidates.len() implies (#[trigger] candidates[j]).pinned by {
            assert(is_pinned(facts, state.popups[j].id));
        }
    }
}

/// A registered destination is always asked first, pinned or not, and is the popup
/// that is ready where its window is alive.
pub proof fn lemma_the_destination_is_asked_first(
    state: ShellModel,
    after: ShellModel,
    then: ShellModel,
    request: EnsureRequest,
    facts: Seq<PopupFacts>,
    step: EnsureStep,
    next: EnsureStep,
    id: PopupId,
)
    requires
        request.destination == Some(id),
        is_registered(state.popups, id),
        state.begins_finding(after, request, facts, step),
        after.reanchors(then, request, id, false, true, facts, next),
    ensures
        step == (EnsureStep::Reanchor { id, reused: false }),
        next == (EnsureStep::Ready { id }),
        then == state,
{
}

/// A popup that takes another one's place is registered in its stead, and all
/// others stay.
pub proof fn lemma_a_staged_popup_takes_one_place(
    state: ShellModel,
    staged: StagedPopup,
    id: PopupId,
)
    requires
        state.wf(),
        state.can_stage(Some(staged)),
    ensures
        is_registered(state.with_staged(Some(staged)).popups, id) <==> id == staged.entry.id || id
            != staged.evict && is_registered(state.popups, id),
        state.with_staged(Some(staged)).popups.len() == state.popups.len(),
        state.with_staged(Some(staged)).popups.last() == staged.entry,
        state.with_staged(None) == state,
        state.staging_actions(Some(staged)).contains(ShellAction::DismissPopup(staged.evict)),
        state.staging_actions(None).len() == 0,
{
    let room = state.without_popup(staged.evict);
    let popups = state.with_staged(Some(staged)).popups;
    let ids = seq![staged.evict];
    assert(ids.drop_last() =~= Seq::<PopupId>::empty());
    assert(state.without_popups(ids.drop_last()) == state);
    assert(ids.last() == staged.evict && ids[0] == staged.evict);
    crate::shell::lemma_exactly_the_removed_are_gone(state, ids, id);
    crate::shell::lemma_removal_tells_the_window(state, staged.evict, true);
    lemma_popup_position(state.popups, staged.evict);
    assert(popups == room.popups.push(staged.entry));
    assert(popups[popups.len() - 1] == staged.entry);
    if is_registered(room.popups, id) {
        let i = choose|i: int| 0 <= i < room.popups.len() && (#[trigger] room.popups[i]).id == id;
        assert(popups[i].id == id);
    }
    if is_registered(popups, id) && id != staged.entry.id {
        let i = choose|i: int| 0 <= i < popups.len() && (#[trigger] popups[i]).id == id;
        assert(room.popups[i].id == id);
    }
}

/// A new popup starts empty, at its place, below the popup that the text came from.
pub proof fn lemma_a_new_popup_is_empty(id: PopupId, anchor: ScreenPoint, parent: Option<PopupId>)
    ensures
        ({
            let entry = fresh_entry(id, anchor, parent);
            &&& entry.id == id
            &&& entry.anchor == anchor
            &&& entry.parent == parent
            &&& entry.created_order == id
            &&& entry.last_request is None
            &&& entry.last_text is None
            &&& entry.presented_trigger is None
            &&& entry.guard_root_window == 0
        }),
{
}

// What the operations do to the shell.

/// A popup that was asked for and is there is the surface; one that is not is
/// unavailable, and is taken away only where it had just been made.
pub proof fn lemma_an_unavailable_popup_goes_only_if_it_is_new(
    shell: &mut Shell,
    id: PopupId,
    created_new: bool,
    available: bool,
    actions: &mut Vec<ShellAction>,
    surface: Result<PopupId, ResultSurfaceError>,
)
    requires
        old(shell)@.wf(),
        call_ensures(Shell::check_surface, (shell, id, created_new, available, actions), surface),
    ensures
        available <==> surface == Ok::<PopupId, ResultSurfaceError>(id),
        !available ==> surface == Err::<PopupId, _>(ResultSurfaceError::Unavailable),
        available || !created_new ==> final(shell)@ == old(shell)@
            && final(actions)@ == old(actions)@,
        !available && created_new ==> !is_registered(final(shell)@.popups, id),
{
    crate::shell::lemma_removal_leaves_no_reference(old(shell)@, id);
}

/// A request from a popup gets a new one beside it; a repetition goes to its
/// own; any other request goes wherever there is room.
pub proof fn lemma_where_a_request_is_shown(spec: RequestSpec, request: EnsureRequest)
    requires
        call_ensures(surface_request, (&spec,), request),
    ensures
        request.destination == spec.destination_popup_id,
        request.parent == spec.source_popup_id,
        spec.destination_popup_id is Some ==> !request.force_new,
        spec.destination_popup_id is None && spec.source_popup_id is Some ==> request.force_new,
        spec.source_popup_id is None ==> !request.force_new,
{
}

/// A new popup is refused only where one must be made, four are shown and none
/// of them can give way.
pub proof fn lemma_when_a_surface_is_refused(
    shell: Shell,
    request: EnsureRequest,
    facts: Vec<PopupFacts>,
    refusal: Option<ResultSurfaceError>,
)
    requires
        call_ensures(Shell::surface_refusal, (&shell, request, &facts), refusal),
    ensures
        refusal is Some ==> refusal == Some(ResultSurfaceError::ProtectedCapacity),
        refusal is Some <==> request.force_new && shell@.popups.len() >= 4 && evicted_popup(
            shell@,
            facts@,
            request.parent,
        ) is None,
{
}

/// A staged popup is presented in the place of another one: that is hidden
/// first, comes back where the staged one cannot be presented, and only a
/// presented one counts.
pub proof fn lemma_a_staged_popup_is_presented_in_order(
    hidden: bool,
    presented: bool,
    restored: bool,
    first: PresentStep,
    second: PresentStep,
    third: PresentStep,
    fourth: PresentStep,
)
    requires
        call_ensures(begin_present, (true, true), first),
        call_ensures(present_next, (first, hidden), second),
        call_ensures(present_next, (second, presented), third),
        call_ensures(present_next, (third, restored), fourth),
    ensures
        first == PresentStep::HideEvicted,
        hidden ==> second == PresentStep::PresentStaged,
        !hidden ==> second == PresentStep::Failed && third == PresentStep::Failed,
        hidden && presented ==> third == PresentStep::Presented && fourth == PresentStep::Presented,
        hidden && !presented ==> third == PresentStep::RestoreEvicted && fourth
            == PresentStep::Failed,
{
}

/// Without a staged popup there is nothing to present, and without the one to
/// give way nothing can be.
pub proof fn lemma_when_presenting_begins(staged: bool, evict_registered: bool, step: PresentStep)
    requires
        call_ensures(begin_present, (staged, evict_registered), step),
    ensures
        step == PresentStep::Presented <==> !staged,
        step == PresentStep::Failed <==> staged && !evict_registered,
{
}

/// A popup that was made is ready and is the last; one that was not made is
/// not there.
pub proof fn lemma_a_made_popup_is_ready(
    shell: &mut Shell,
    request: EnsureRequest,
    id: PopupId,
    anchor: ScreenPoint,
    created: bool,
    step: EnsureStep,
)
    requires
        call_ensures(Shell::shown, (shell, request, id, anchor, created), step),
    ensures
        created ==> step == (EnsureStep::Ready { id })
            && final(shell)@.popups.len() == old(shell)@.popups.len() + 1
            && final(shell)@.popups.last().id == id
            && final(shell)@.popups.last().anchor == anchor
            && final(shell)@.popups.last().parent == request.parent
            && final(shell)@.popups.drop_last() == old(shell)@.popups,
        !created ==> step == EnsureStep::Unavailable && final(shell)@.popups == old(shell)@.popups,
{
}

/// A request that is bound to nothing asks for no popup in particular.
pub proof fn lemma_an_unbound_request_asks_for_no_popup(request: EnsureRequest)
    requires
        call_ensures(unbound_request, (), request),
    ensures
        request.destination is None,
        request.parent is None,
        !request.force_new,
{
}

/// A popup is looked for, and staged, by the rules of the model.
pub proof fn lemma_popups_are_found_by_the_model(
    finding: &mut Shell,
    moving: &mut Shell,
    request: EnsureRequest,
    facts: Vec<PopupFacts>,
    actions: &mut Vec<ShellAction>,
    others: &mut Vec<ShellAction>,
    id: PopupId,
    reused: bool,
    alive: bool,
    step: EnsureStep,
    following: EnsureStep,
    evict: PopupId,
    anchor: ScreenPoint,
    parent: Option<PopupId>,
    staged: StagedPopup,
)
    requires
        call_ensures(Shell::begin_ensure, (finding, request, &facts, actions), step),
        call_ensures(
            Shell::reanchored,
            (moving, request, id, reused, alive, &facts, others),
            following,
        ),
        call_ensures(stage_popup, (id, evict, anchor, parent), staged),
    ensures
        old(finding)@.begins_finding(final(finding)@, request, facts@, step),
        old(moving)@.reanchors(final(moving)@, request, id, reused, alive, facts@, following),
        alive ==> final(others)@ == old(others)@,
        staged.entry.id == id && staged.evict == evict && staged.entry.anchor == anchor
            && staged.entry.parent == parent,
{
}

} // verus!
