//! Which popup may be reused, evicted, dismissed or built upon.

use crate::extraction::TriggerKind;
use crate::geometry::ScreenRect;
use crate::mouse::{is_button_down, WM_LBUTTONDOWN, WM_MBUTTONDOWN, WM_RBUTTONDOWN, WM_XBUTTONDOWN};
use crate::settings::{prompt_models, PromptConfig, PromptModel};
use crate::text::same_text;
use vstd::prelude::*;

verus! {

/// Identifies a popup; never zero.
pub type PopupId = usize;

pub const MAX_VISIBLE_POPUPS: usize = 4;

/// The identifier after `id`; zero is left out.
pub open spec fn following_id(id: PopupId) -> PopupId {
    if id == usize::MAX {
        1
    } else {
        (id + 1) as usize
    }
}

/// The identifier `steps` after `first`.
pub open spec fn id_after(first: PopupId, steps: nat) -> PopupId
    decreases steps,
{
    if steps == 0 {
        first
    } else {
        following_id(id_after(first, (steps - 1) as nat))
    }
}

/// The first identifier of the cycle; zero counts as one.
pub open spec fn first_id(next_id: PopupId) -> PopupId {
    if next_id == 0 {
        1
    } else {
        next_id
    }
}

/// The `steps` identifiers from `first` on.
spec fn ids_tried(first: PopupId, steps: nat) -> Set<usize>
    decreases steps,
{
    if steps == 0 {
        Set::empty()
    } else {
        ids_tried(first, (steps - 1) as nat).insert(id_after(first, (steps - 1) as nat))
    }
}

/// Where the cycle is after `steps` steps.
proof fn lemma_id_after(first: PopupId, steps: nat)
    requires
        1 <= first,
        steps < usize::MAX,
    ensures
        id_after(first, steps) == if first + steps <= usize::MAX {
            first + steps
        } else {
            first + steps - usize::MAX
        },
    decreases steps,
{
    if steps > 0 {
        lemma_id_after(first, (steps - 1) as nat);
    }
}

proof fn lemma_tried_ids_are_distinct(first: PopupId, steps: nat)
    requires
        1 <= first,
        steps < usize::MAX,
    ensures
        ids_tried(first, steps).finite(),
        ids_tried(first, steps).len() == steps,
        !ids_tried(first, steps).contains(id_after(first, steps)),
        forall|id: usize|
            ids_tried(first, steps).contains(id) ==> exists|k: nat|
                k < steps && id == #[trigger] id_after(first, k),
    decreases steps,
{
    if steps > 0 {
        let before = (steps - 1) as nat;
        lemma_tried_ids_are_distinct(first, before);
        assert forall|id: usize| ids_tried(first, steps).contains(id) implies exists|k: nat|
            k < steps && id == #[trigger] id_after(first, k) by {
            if id == id_after(first, before) {
                assert(before < steps);
            } else {
                let k = choose|k: nat| k < before && id == #[trigger] id_after(first, k);
                assert(k < steps && id == id_after(first, k));
            }
        }
    }
    lemma_id_after(first, steps);
    if ids_tried(first, steps).contains(id_after(first, steps)) {
        let k = choose|k: nat| k < steps && id_after(first, steps) == #[trigger] id_after(first, k);
        lemma_id_after(first, k);
    }
}

fn holds_id(existing: &[PopupId], id: PopupId) -> (holds: bool)
    ensures
        holds == existing@.contains(id),
{
    let mut i: usize = 0;
    while i < existing.len()
        invariant
            i <= existing@.len(),
            forall|j: int| 0 <= j < i ==> existing@[j] != id,
        decreases existing@.len() - i,
    {
        if existing[i] == id {
            return true;
        }
        i = i + 1;
    }
    false
}

/// The first identifier from `next_id` on that is not in use, and the one to
/// try next time.
pub fn next_unused_popup_id(next_id: PopupId, existing: &[PopupId]) -> (ids: (PopupId, PopupId))
    requires
        existing@.len() < usize::MAX - 1,
    ensures
        ids.0 != 0,
        !existing@.contains(ids.0),
        ids.1 == following_id(ids.0),
        exists|k: nat|
            ids.0 == #[trigger] id_after(first_id(next_id), k) && forall|j: nat|
                j < k ==> existing@.contains(#[trigger] id_after(first_id(next_id), j)),
{
    let ghost first = first_id(next_id);
    let mut id: usize = if next_id == 0 {
        1
    } else {
        next_id
    };
    let ghost mut steps: nat = 0;
    loop
        invariant
            existing@.len() < usize::MAX - 1,
            first == first_id(next_id),
            id != 0,
            id == id_after(first, steps),
            steps <= existing@.len(),
            forall|j: nat| j < steps ==> existing@.contains(#[trigger] id_after(first, j)),
        decreases existing@.len() - steps,
    {
        let following: usize = if id == usize::MAX {
            1
        } else {
            id + 1
        };
        if !holds_id(existing, id) {
            return (id, following);
        }
        proof {
            let next = steps + 1;
            assert forall|j: nat| j < next implies existing@.contains(
                #[trigger] id_after(first, j),
            ) by {
                if j == steps {
                    assert(id == id_after(first, j));
                }
            }
            lemma_tried_ids_are_distinct(first, next);
            existing@.lemma_cardinality_of_set();
            assert forall|other: usize| ids_tried(first, next).contains(
                other,
            ) implies existing@.to_set().contains(other) by {
                let k = choose|k: nat| k < next && other == #[trigger] id_after(first, k);
                assert(existing@.contains(id_after(first, k)));
            }
            vstd::set_lib::lemma_len_subset(ids_tried(first, next), existing@.to_set());
            steps = next;
        }
        id = following;
    }
}

// Lifetime.

/// A click elsewhere dismisses a popup that is not pinned.
pub fn should_dismiss_for_outside_click(
    clicked: Option<PopupId>,
    candidate: PopupId,
    pinned: bool,
) -> (dismiss: bool)
    ensures
        dismiss == (clicked != Some(candidate) && !pinned),
{
    let is_clicked: bool = match clicked {
        Some(id) => id == candidate,
        None => false,
    };
    !is_clicked && !pinned
}

pub fn is_pointer_button_down(kind: u32) -> (down: bool)
    ensures
        down == is_button_down(kind),
{
    kind == WM_LBUTTONDOWN || kind == WM_RBUTTONDOWN || kind == WM_MBUTTONDOWN || kind
        == WM_XBUTTONDOWN
}

pub fn popup_can_be_reused(pinned: bool) -> (reusable: bool)
    ensures
        reusable == !pinned,
{
    !pinned
}

/// A popup may give way: it is complete, not pinned, not where the new text
/// came from, and not where a result is being shown.
pub open spec fn may_evict(
    id: PopupId,
    source: Option<PopupId>,
    active_destination: Option<PopupId>,
    pinned: bool,
    completed: bool,
) -> bool {
    source != Some(id) && active_destination != Some(id) && !pinned && completed
}

pub(crate) fn is_id(optional: Option<PopupId>, id: PopupId) -> (same: bool)
    ensures
        same == (optional == Some(id)),
{
    match optional {
        Some(value) => value == id,
        None => false,
    }
}

pub fn popup_can_be_evicted(
    id: PopupId,
    source: Option<PopupId>,
    active_destination: Option<PopupId>,
    pinned: bool,
    completed: bool,
) -> (evictable: bool)
    ensures
        evictable == may_evict(id, source, active_destination, pinned, completed),
{
    !is_id(source, id) && !is_id(active_destination, id) && !pinned && completed
}

#[derive(Clone, Copy, Debug, PartialEq, Eq, Structural)]
pub struct PopupEvictionCandidate {
    pub id: PopupId,
    pub created_order: u64,
    pub pinned: bool,
    pub completed: bool,
}

impl PopupEvictionCandidate {
    pub open spec fn evictable(self, parent: Option<PopupId>, active: Option<PopupId>) -> bool {
        may_evict(self.id, parent, active, self.pinned, self.completed)
    }
}

/// The index of the evictable candidate that was created first.
pub open spec fn oldest_evictable(
    candidates: Seq<PopupEvictionCandidate>,
    parent: Option<PopupId>,
    active: Option<PopupId>,
) -> Option<int>
    decreases candidates.len(),
{
    if candidates.len() == 0 {
        None
    } else {
        let before = oldest_evictable(candidates.drop_last(), parent, active);
        let last = candidates.last();
        if last.evictable(parent, active) && (before matches Some(i) ==> last.created_order
            < candidates[i].created_order) {
            Some(candidates.len() - 1)
        } else {
            before
        }
    }
}

/// The oldest evictable candidate is evictable, and no other evictable one is
/// older; there is none only where every candidate is protected.
pub proof fn lemma_oldest_evictable(
    candidates: Seq<PopupEvictionCandidate>,
    parent: Option<PopupId>,
    active: Option<PopupId>,
)
    ensures
        match oldest_evictable(candidates, parent, active) {
            Some(i) => {
                &&& 0 <= i < candidates.len()
                &&& candidates[i].evictable(parent, active)
                &&& forall|j: int|
                    0 <= j < candidates.len() && (#[trigger] candidates[j]).evictable(
                        parent,
                        active,
                    ) ==> candidates[i].created_order <= candidates[j].created_order
            },
            None => forall|j: int|
                0 <= j < candidates.len() ==> !(#[trigger] candidates[j]).evictable(parent, active),
        },
    decreases candidates.len(),
{
    if candidates.len() > 0 {
        let before = candidates.drop_last();
        lemma_oldest_evictable(before, parent, active);
        assert forall|j: int| 0 <= j < candidates.len() - 1 implies before[j] == candidates[j] by {}
    }
}

/// The oldest popup that can be evicted safely.
pub fn oldest_evictable_popup(
    candidates: &[PopupEvictionCandidate],
    parent: Option<PopupId>,
    active_destination: Option<PopupId>,
) -> (oldest: Option<PopupId>)
    ensures
        match (oldest, oldest_evictable(candidates@, parent, active_destination)) {
            (Some(id), Some(i)) => 0 <= i < candidates@.len() && id == candidates@[i].id,
            (None, None) => true,
            _ => false,
        },
{
    let mut best: Option<usize> = None;
    let mut i: usize = 0;
    proof {
        assert(candidates@.take(0) =~= Seq::empty());
    }
    while i < candidates.len()
        invariant
            i <= candidates@.len(),
            match best {
                Some(b) => b < i && oldest_evictable(
                    candidates@.take(i as int),
                    parent,
                    active_destination,
                ) == Some(b as int),
                None => oldest_evictable(
                    candidates@.take(i as int),
                    parent,
                    active_destination,
                ) is None,
            },
        decreases candidates@.len() - i,
    {
        proof {
            assert(candidates@.take(i as int + 1).drop_last() =~= candidates@.take(i as int));
        }
        let candidate: PopupEvictionCandidate = candidates[i];
        if popup_can_be_evicted(
            candidate.id,
            parent,
            active_destination,
            candidate.pinned,
            candidate.completed,
        ) {
            let older: bool = match best {
                Some(b) => candidate.created_order < candidates[b].created_order,
                None => true,
            };
            if older {
                best = Some(i);
            }
        }
        i = i + 1;
    }
    proof {
        assert(candidates@.take(i as int) =~= candidates@);
    }
    match best {
        Some(b) => Some(candidates[b].id),
        None => None,
    }
}

#[derive(Clone, Copy, Debug, PartialEq, Eq, Structural)]
pub enum ResultSurfaceError {
    ProtectedCapacity,
    Unavailable,
}

/// A popup of its own is refused where all places are taken by popups that
/// must stay.
pub fn protected_capacity_error(
    force_new: bool,
    popup_count: usize,
    eviction_candidate: Option<PopupId>,
) -> (error: Option<ResultSurfaceError>)
    ensures
        error == if force_new && popup_count >= MAX_VISIBLE_POPUPS && eviction_candidate is None {
            Some(ResultSurfaceError::ProtectedCapacity)
        } else {
            None
        },
{
    if force_new && popup_count >= MAX_VISIBLE_POPUPS && eviction_candidate.is_none() {
        Some(ResultSurfaceError::ProtectedCapacity)
    } else {
        None
    }
}

#[derive(Clone, Copy, Debug, PartialEq, Eq, Structural)]
pub enum CascadeSourceStatus {
    Missing,
    Unavailable,
    Ready,
}

/// Text in a popup may be translated only while the popup lives, shows a
/// complete result and has a place.
pub fn cascade_source_status(
    present: bool,
    result_surface_available: bool,
    completed: bool,
    anchor_available: bool,
) -> (status: CascadeSourceStatus)
    ensures
        status == if !present {
            CascadeSourceStatus::Missing
        } else if result_surface_available && completed && anchor_available {
            CascadeSourceStatus::Ready
        } else {
            CascadeSourceStatus::Unavailable
        },
{
    if !present {
        CascadeSourceStatus::Missing
    } else if !result_surface_available || !completed || !anchor_available {
        CascadeSourceStatus::Unavailable
    } else {
        CascadeSourceStatus::Ready
    }
}

// The foreground.

/// A hover's popup goes when another application comes to the foreground.
pub open spec fn leaves_with_foreground(
    presented_trigger: Option<TriggerKind>,
    guard_root_window: isize,
    new_root_window: isize,
    popup_pinned: bool,
    foreground_is_popup: bool,
) -> bool {
    !popup_pinned && !foreground_is_popup && presented_trigger == Some(TriggerKind::Hover)
        && guard_root_window != 0 && new_root_window != 0 && guard_root_window != new_root_window
}

pub fn should_dismiss_hover_for_foreground(
    presented_trigger: Option<TriggerKind>,
    guard_root_window: isize,
    new_root_window: isize,
    popup_present: bool,
    popup_pinned: bool,
    foreground_is_popup: bool,
) -> (dismiss: bool)
    ensures
        dismiss == (popup_present && leaves_with_foreground(
            presented_trigger,
            guard_root_window,
            new_root_window,
            popup_pinned,
            foreground_is_popup,
        )),
{
    let is_hover: bool = match presented_trigger {
        Some(trigger) => trigger == TriggerKind::Hover,
        None => false,
    };
    popup_present && !popup_pinned && !foreground_is_popup && is_hover && guard_root_window != 0
        && new_root_window != 0 && guard_root_window != new_root_window
}

/// A hover is admitted only while its application, or a popup, is in the
/// foreground.
pub fn hover_foreground_guard_is_current(
    trigger: TriggerKind,
    guard_root_window: isize,
    current_root_window: isize,
    foreground_is_popup: bool,
) -> (current: bool)
    ensures
        current == (trigger != TriggerKind::Hover || foreground_is_popup || guard_root_window != 0
            && guard_root_window == current_root_window),
{
    trigger != TriggerKind::Hover || foreground_is_popup || (guard_root_window != 0
        && guard_root_window == current_root_window)
}

/// The remembered selection is used again only in the window that it was made
/// in.
pub fn selection_rect_for_root(remembered: Option<(ScreenRect, isize)>, current_root: isize) -> (rect:
    Option<ScreenRect>)
    ensures
        rect == match remembered {
            Some((rect, root)) => if root != 0 && root == current_root {
                Some(rect)
            } else {
                None
            },
            None => None,
        },
{
    match remembered {
        Some((rect, root)) => if root != 0 && root == current_root {
            Some(rect)
        } else {
            None
        },
        None => None,
    }
}

/// What a new request cancels at once.
#[derive(Clone, Copy, Debug, PartialEq, Eq, Structural)]
pub enum CandidateCancellation {
    ExtractionOnly,
    AllInflight,
}

/// An explicit request replaces everything at once; an automatic one is only a
/// candidate until it has a text.
pub fn candidate_cancellation(trigger: TriggerKind, bypass_duplicate_suppression: bool) -> (cancel:
    CandidateCancellation)
    ensures
        cancel == if trigger == TriggerKind::Manual || bypass_duplicate_suppression {
            CandidateCancellation::AllInflight
        } else {
            CandidateCancellation::ExtractionOnly
        },
{
    if trigger == TriggerKind::Manual || bypass_duplicate_suppression {
        CandidateCancellation::AllInflight
    } else {
        CandidateCancellation::ExtractionOnly
    }
}

/// Nothing is translated while the user rests.
pub fn translation_enabled(rest_enabled: bool) -> (enabled: bool)
    ensures
        enabled == !rest_enabled,
{
    !rest_enabled
}

// Choosing a profile.

/// The profile at a visible index, where the choices are those of the current
/// configuration.
pub fn profile_for_generation(
    profile_ids: &[String],
    profile_index: usize,
    choice_generation: u64,
    current_generation: u64,
) -> (profile: Option<String>)
    ensures
        match profile {
            Some(id) => {
                &&& choice_generation == current_generation
                &&& profile_index < profile_ids@.len()
                &&& id == profile_ids@[profile_index as int]
            },
            None => choice_generation != current_generation || profile_index >= profile_ids@.len(),
        },
{
    if choice_generation == current_generation && profile_index < profile_ids.len() {
        Some(profile_ids[profile_index].clone())
    } else {
        None
    }
}

/// The profile is one of the three standard ones.
pub open spec fn is_standard_profile(id: Seq<char>) -> bool {
    id == "linguist-analysis"@ || id == "code-specialist"@ || id == "concise-explanation"@
}

/// The indices, in order, of the first `count` profiles with the identifier
/// `id`.
pub open spec fn indices_with_id(profiles: Seq<PromptModel>, id: Seq<char>, count: int) -> Seq<
    usize,
>
    decreases count,
{
    if count <= 0 {
        Seq::empty()
    } else if profiles[count - 1].id == id {
        indices_with_id(profiles, id, count - 1).push((count - 1) as usize)
    } else {
        indices_with_id(profiles, id, count - 1)
    }
}

/// The indices, in order, of those of the first `count` profiles that are not
/// standard.
pub open spec fn other_indices(profiles: Seq<PromptModel>, count: int) -> Seq<usize>
    decreases count,
{
    if count <= 0 {
        Seq::empty()
    } else if is_standard_profile(profiles[count - 1].id) {
        other_indices(profiles, count - 1)
    } else {
        other_indices(profiles, count - 1).push((count - 1) as usize)
    }
}

/// The standard profiles first, then the others in their configured order.
pub open spec fn chooser_order(profiles: Seq<PromptModel>) -> Seq<usize> {
    let count = profiles.len() as int;
    indices_with_id(profiles, "linguist-analysis"@, count) + indices_with_id(
        profiles,
        "code-specialist"@,
        count,
    ) + indices_with_id(profiles, "concise-explanation"@, count) + other_indices(profiles, count)
}

fn push_indices_with_id(ordered: &mut Vec<usize>, profiles: &[PromptConfig], id: &str)
    ensures
        final(ordered)@ == old(ordered)@ + indices_with_id(
            prompt_models(profiles@),
            id@,
            profiles@.len() as int,
        ),
{
    let ghost models = prompt_models(profiles@);
    let ghost before = ordered@;
    let mut i: usize = 0;
    proof {
        assert(before + indices_with_id(models, id@, 0) =~= before);
    }
    while i < profiles.len()
        invariant
            i <= profiles@.len(),
            models == prompt_models(profiles@),
            ordered@ == before + indices_with_id(models, id@, i as int),
        decreases profiles@.len() - i,
    {
        proof {
            assert(models[i as int].id == profiles@[i as int].id@);
        }
        if same_text(profiles[i].id.as_str(), id) {
            ordered.push(i);
        }
        i = i + 1;
        proof {
            assert(ordered@ =~= before + indices_with_id(models, id@, i as int));
        }
    }
}

/// The order in which the profiles are offered.
pub fn profile_chooser_order(profiles: &[PromptConfig]) -> (ordered: Vec<usize>)
    ensures
        ordered@ == chooser_order(prompt_models(profiles@)),
{
    let ghost models = prompt_models(profiles@);
    let mut ordered: Vec<usize> = Vec::new();
    push_indices_with_id(&mut ordered, profiles, "linguist-analysis");
    push_indices_with_id(&mut ordered, profiles, "code-specialist");
    push_indices_with_id(&mut ordered, profiles, "concise-explanation");
    let ghost standard = ordered@;
    let mut i: usize = 0;
    proof {
        assert(standard + other_indices(models, 0) =~= standard);
    }
    while i < profiles.len()
        invariant
            i <= profiles@.len(),
            models == prompt_models(profiles@),
            ordered@ == standard + other_indices(models, i as int),
        decreases profiles@.len() - i,
    {
        let id: &str = profiles[i].id.as_str();
        proof {
            assert(models[i as int].id == profiles@[i as int].id@);
        }
        if !same_text(id, "linguist-analysis") && !same_text(id, "code-specialist") && !same_text(
            id,
            "concise-explanation",
        ) {
            ordered.push(i);
        }
        i = i + 1;
        proof {
            assert(ordered@ =~= standard + other_indices(models, i as int));
        }
    }
    proof {
        assert(ordered@ =~= chooser_order(models));
    }
    ordered
}

proof fn lemma_indices_with_id(profiles: Seq<PromptModel>, id: Seq<char>, count: int)
    requires
        0 <= count <= profiles.len() <= usize::MAX,
    ensures
        ({
            let indices = indices_with_id(profiles, id, count);
            &&& forall|k: int|
                0 <= k < indices.len() ==> (#[trigger] indices[k]) < count
                    && profiles[indices[k] as int].id == id
            &&& forall|a: int, b: int| 0 <= a < b < indices.len() ==> indices[a] < indices[b]
            &&& forall|i: usize| i < count && profiles[i as int].id == id ==> indices.contains(i)
        }),
    decreases count,
{
    if count > 0 {
        lemma_indices_with_id(profiles, id, count - 1);
        let before = indices_with_id(profiles, id, count - 1);
        let indices = indices_with_id(profiles, id, count);
        assert forall|i: usize| i < count && profiles[i as int].id == id implies indices.contains(
            i,
        ) by {
            if i == count - 1 {
                assert(indices.last() == i);
            } else {
                assert(before.contains(i));
                let k = before.index_of(i);
                assert(indices[k] == i);
            }
        }
    }
}

proof fn lemma_other_indices(profiles: Seq<PromptModel>, count: int)
    requires
        0 <= count <= profiles.len() <= usize::MAX,
    ensures
        ({
            let indices = other_indices(profiles, count);
            &&& forall|k: int|
                0 <= k < indices.len() ==> (#[trigger] indices[k]) < count && !is_standard_profile(
                    profiles[indices[k] as int].id,
                )
            &&& forall|a: int, b: int| 0 <= a < b < indices.len() ==> indices[a] < indices[b]
            &&& forall|i: usize|
                i < count && !is_standard_profile(profiles[i as int].id) ==> indices.contains(i)
        }),
    decreases count,
{
    if count > 0 {
        lemma_other_indices(profiles, count - 1);
        let before = other_indices(profiles, count - 1);
        let indices = other_indices(profiles, count);
        assert forall|i: usize|
            i < count && !is_standard_profile(profiles[i as int].id) implies indices.contains(i) by {
            if i == count - 1 {
                assert(indices.last() == i);
            } else {
                assert(before.contains(i));
                let k = before.index_of(i);
                assert(indices[k] == i);
            }
        }
    }
}

/// Every profile is offered exactly once, no standard profile comes after
/// another one, and the others keep their configured order.
pub proof fn lemma_chooser_order_is_a_permutation(profiles: Seq<PromptModel>)
    requires
        profiles.len() <= usize::MAX,
    ensures
        ({
            let order = chooser_order(profiles);
            &&& order.no_duplicates()
            &&& forall|i: usize| i < profiles.len() <==> order.contains(i)
            &&& forall|a: int, b: int|
                0 <= a < b < order.len() && is_standard_profile(
                    profiles[order[b] as int].id,
                ) ==> is_standard_profile(profiles[order[a] as int].id)
            &&& forall|a: int, b: int|
                0 <= a < b < order.len() && !is_standard_profile(profiles[order[a] as int].id)
                    ==> order[a] < order[b]
        }),
{
    reveal_strlit("linguist-analysis");
    reveal_strlit("code-specialist");
    reveal_strlit("concise-explanation");
    let count = profiles.len() as int;
    let a = indices_with_id(profiles, "linguist-analysis"@, count);
    let b = indices_with_id(profiles, "code-specialist"@, count);
    let c = indices_with_id(profiles, "concise-explanation"@, count);
    let d = other_indices(profiles, count);
    assert("linguist-analysis"@.len() != "code-specialist"@.len());
    assert("linguist-analysis"@.len() != "concise-explanation"@.len());
    assert("code-specialist"@.len() != "concise-explanation"@.len());
    lemma_indices_with_id(profiles, "linguist-analysis"@, count);
    lemma_indices_with_id(profiles, "code-specialist"@, count);
    lemma_indices_with_id(profiles, "concise-explanation"@, count);
    lemma_other_indices(profiles, count);
    let order = chooser_order(profiles);
    assert(order == a + b + c + d);
    assert forall|k: int| 0 <= k < order.len() implies order[k] == if k < a.len() {
        a[k]
    } else if k < a.len() + b.len() {
        b[k - a.len()]
    } else if k < a.len() + b.len() + c.len() {
        c[k - a.len() - b.len()]
    } else {
        d[k - a.len() - b.len() - c.len()]
    } by {}
    assert forall|i: usize| i < profiles.len() <==> order.contains(i) by {
        if i < profiles.len() {
            let id = profiles[i as int].id;
            if id == "linguist-analysis"@ {
                assert(a.contains(i));
                assert(order[a.index_of(i)] == i);
            } else if id == "code-specialist"@ {
                assert(b.contains(i));
                assert(order[a.len() + b.index_of(i)] == i);
            } else if id == "concise-explanation"@ {
                assert(c.contains(i));
                assert(order[a.len() + b.len() + c.index_of(i)] == i);
            } else {
                assert(d.contains(i));
                assert(order[a.len() + b.len() + c.len() + d.index_of(i)] == i);
            }
        }
        if order.contains(i) {
            let k = order.index_of(i);
            assert(order[k] == i);
        }
    }
    assert forall|x: int, y: int| 0 <= x < order.len() && 0 <= y < order.len() && x
        != y implies order[x] != order[y] by {
        if order[x] == order[y] {
            let id = profiles[order[x] as int].id;
            if id == "linguist-analysis"@ {
                assert(x < a.len() && y < a.len());
            } else if id == "code-specialist"@ {
                assert(a.len() <= x < a.len() + b.len() && a.len() <= y < a.len() + b.len());
            } else if id == "concise-explanation"@ {
                assert(a.len() + b.len() <= x < a.len() + b.len() + c.len());
                assert(a.len() + b.len() <= y < a.len() + b.len() + c.len());
            } else {
                assert(x >= a.len() + b.len() + c.len());
                assert(y >= a.len() + b.len() + c.len());
            }
        }
    }
}

/// What the popup shows as its input: the sentence, or else the target.
pub fn displayed_input<'a>(target: &'a str, context: Option<&'a str>) -> (input: &'a str)
    ensures
        input@ == match context {
            Some(sentence) => sentence@,
            None => target@,
        },
{
    match context {
        Some(sentence) => sentence,
        None => target,
    }
}

/// A popup that is complete, not pinned, not where the text came from and not
/// where a result is being shown can always give way, and the one that was made
/// first does; nothing else ever does.
pub proof fn lemma_the_first_made_gives_way(
    candidates: Seq<PopupEvictionCandidate>,
    parent: Option<PopupId>,
    active: Option<PopupId>,
)
    ensures
        oldest_evictable(candidates, parent, active) is Some <==> exists|i: int|
            0 <= i < candidates.len() && (#[trigger] candidates[i]).completed
                && !candidates[i].pinned && parent != Some(candidates[i].id) && active != Some(
                candidates[i].id,
            ),
        oldest_evictable(candidates, parent, active) matches Some(i) ==> {
            &&& 0 <= i < candidates.len()
            &&& candidates[i].completed
            &&& !candidates[i].pinned
            &&& parent != Some(candidates[i].id)
            &&& active != Some(candidates[i].id)
            &&& forall|j: int|
                0 <= j < candidates.len() && (#[trigger] candidates[j]).completed
                    && !candidates[j].pinned && parent != Some(candidates[j].id) && active != Some(
                    candidates[j].id,
                ) ==> candidates[i].created_order <= candidates[j].created_order
        },
{
    lemma_oldest_evictable(candidates, parent, active);
    if let Some(i) = oldest_evictable(candidates, parent, active) {
        assert(candidates[i].completed);
        assert forall|j: int|
            0 <= j < candidates.len() && (#[trigger] candidates[j]).completed
                && !candidates[j].pinned && parent != Some(candidates[j].id) && active != Some(
                candidates[j].id,
            ) implies candidates[i].created_order <= candidates[j].created_order by {
            assert(candidates[j].evictable(parent, active));
        }
    } else {
        assert forall|i: int| 0 <= i < candidates.len() implies !((
        #[trigger] candidates[i]).completed && !candidates[i].pinned && parent != Some(
            candidates[i].id,
        ) && active != Some(candidates[i].id)) by {
            assert(!candidates[i].evictable(parent, active));
        }
    }
}

/// Where a profile is ranked among the offered ones: the three standard profiles
/// come first, in this order, then all others.
pub open spec fn offer_rank(id: Seq<char>) -> int {
    if id == "linguist-analysis"@ {
        0
    } else if id == "code-specialist"@ {
        1
    } else if id == "concise-explanation"@ {
        2
    } else {
        3
    }
}

/// The profiles are offered by their rank, and those of one rank in the order in
/// which they are configured.
pub proof fn lemma_profiles_are_offered_by_rank(profiles: Seq<PromptModel>, a: int, b: int)
    requires
        profiles.len() <= usize::MAX,
        0 <= a < b < chooser_order(profiles).len(),
    ensures
        ({
            let first = chooser_order(profiles)[a] as int;
            let second = chooser_order(profiles)[b] as int;
            &&& 0 <= first < profiles.len()
            &&& 0 <= second < profiles.len()
            &&& offer_rank(profiles[first].id) <= offer_rank(profiles[second].id)
            &&& offer_rank(profiles[first].id) == offer_rank(profiles[second].id) ==> first
                < second
        }),
{
    let count = profiles.len() as int;
    reveal_strlit("linguist-analysis");
    reveal_strlit("code-specialist");
    reveal_strlit("concise-explanation");
    assert("linguist-analysis"@[0] == 'l');
    assert("code-specialist"@[1] == 'o' && "code-specialist"@[2] == 'd');
    assert("concise-explanation"@[2] == 'n');
    lemma_indices_with_id_in_order(profiles, "linguist-analysis"@, count);
    lemma_indices_with_id_in_order(profiles, "code-specialist"@, count);
    lemma_indices_with_id_in_order(profiles, "concise-explanation"@, count);
    lemma_other_indices_in_order(profiles, count);
}

proof fn lemma_indices_with_id_in_order(profiles: Seq<PromptModel>, id: Seq<char>, count: int)
    requires
        0 <= count <= profiles.len() <= usize::MAX,
    ensures
        forall|i: int|
            0 <= i < indices_with_id(profiles, id, count).len() ==> (
            #[trigger] indices_with_id(profiles, id, count)[i]) < count
                && profiles[indices_with_id(profiles, id, count)[i] as int].id == id,
        forall|i: int, j: int|
            0 <= i < j < indices_with_id(profiles, id, count).len() ==> (
            #[trigger] indices_with_id(profiles, id, count)[i]) < (
            #[trigger] indices_with_id(profiles, id, count)[j]),
    decreases count,
{
    if count > 0 {
        lemma_indices_with_id_in_order(profiles, id, count - 1);
    }
}

proof fn lemma_other_indices_in_order(profiles: Seq<PromptModel>, count: int)
    requires
        0 <= count <= profiles.len() <= usize::MAX,
    ensures
        forall|i: int|
            0 <= i < other_indices(profiles, count).len() ==> (
            #[trigger] other_indices(profiles, count)[i]) < count && !is_standard_profile(
                profiles[other_indices(profiles, count)[i] as int].id,
            ),
        forall|i: int, j: int|
            0 <= i < j < other_indices(profiles, count).len() ==> (
            #[trigger] other_indices(profiles, count)[i]) < (
            #[trigger] other_indices(profiles, count)[j]),
    decreases count,
{
    if count > 0 {
        lemma_other_indices_in_order(profiles, count - 1);
    }
}

/// A hover's popup goes with its application: it stays while it is pinned, while
/// a popup or the same window is in front, and where either window is unknown;
/// what another trigger shows always stays.
pub proof fn lemma_only_a_hover_goes_with_its_window(
    presented: Option<TriggerKind>,
    guard: isize,
    front: isize,
    pinned: bool,
    is_popup: bool,
)
    ensures
        presented != Some(TriggerKind::Hover) || pinned || is_popup || guard == 0 || front == 0
            || guard == front ==> !leaves_with_foreground(
            presented,
            guard,
            front,
            pinned,
            is_popup,
        ),
        presented == Some(TriggerKind::Hover) && !pinned && !is_popup && guard != 0 && front != 0
            && guard != front ==> leaves_with_foreground(presented, guard, front, pinned, is_popup),
{
}

/// Identifiers are given out in turn, from one to the largest and around again.
pub proof fn lemma_identifiers_go_around(first: PopupId, steps: nat)
    requires
        1 <= first,
        steps < usize::MAX,
    ensures
        id_after(first_id(first), steps) != 0,
        first + steps <= usize::MAX ==> id_after(first_id(first), steps) == first + steps,
        first + steps > usize::MAX ==> id_after(first_id(first), steps) == first + steps
            - usize::MAX,
        first_id(0) == 1,
        MAX_VISIBLE_POPUPS == 4,
{
    lemma_id_after(first, steps);
}

// What the helpers decide.

/// A press dismisses every popup but the pinned ones and the one it hits.
pub proof fn lemma_a_press_outside_dismisses(
    clicked: Option<PopupId>,
    candidate: PopupId,
    pinned: bool,
    dismiss: bool,
)
    requires
        call_ensures(should_dismiss_for_outside_click, (clicked, candidate, pinned), dismiss),
    ensures
        pinned ==> !dismiss,
        clicked == Some(candidate) ==> !dismiss,
        !pinned && clicked is None ==> dismiss,
        !pinned && (clicked matches Some(other) && other != candidate) ==> dismiss,
{
}

/// A popup gives way only where it is done, not pinned, and neither read from
/// nor written to.
pub proof fn lemma_what_may_give_way(
    id: PopupId,
    source: Option<PopupId>,
    destination: Option<PopupId>,
    pinned: bool,
    completed: bool,
)
    ensures
        pinned || !completed ==> !may_evict(id, source, destination, pinned, completed),
        !may_evict(id, Some(id), destination, pinned, completed),
        !may_evict(id, source, Some(id), pinned, completed),
        source != Some(id) && destination != Some(id) ==> may_evict(
            id,
            source,
            destination,
            false,
            true,
        ),
{
}

/// A popup that is read from must be there and be filled, with a place to put
/// the next one.
pub proof fn lemma_what_can_be_read_from(
    present: bool,
    available: bool,
    completed: bool,
    anchored: bool,
    status: CascadeSourceStatus,
)
    requires
        call_ensures(cascade_source_status, (present, available, completed, anchored), status),
    ensures
        status == CascadeSourceStatus::Missing <==> !present,
        status == CascadeSourceStatus::Ready ==> available && completed && anchored,
        present && available && completed && anchored ==> status == CascadeSourceStatus::Ready,
{
}

/// The window in front matters to a hover alone: that must have begun there, or
/// a popup is in front.
pub proof fn lemma_the_front_window_matters_to_a_hover(
    trigger: TriggerKind,
    guard: isize,
    front: isize,
    popup_in_front: bool,
    current: bool,
)
    requires
        call_ensures(
            hover_foreground_guard_is_current,
            (trigger, guard, front, popup_in_front),
            current,
        ),
    ensures
        trigger != TriggerKind::Hover || popup_in_front ==> current,
        trigger == TriggerKind::Hover && !popup_in_front && guard != front ==> !current,
        trigger == TriggerKind::Hover && !popup_in_front && guard == 0 ==> !current,
        guard != 0 && guard == front ==> current,
{
}

/// A remembered selection is used again only in the window that it was made
/// in.
pub proof fn lemma_a_selection_belongs_to_its_window(
    rect: ScreenRect,
    root: isize,
    current: isize,
    found: Option<ScreenRect>,
    nothing: Option<ScreenRect>,
)
    requires
        call_ensures(selection_rect_for_root, (Some((rect, root)), current), found),
        call_ensures(selection_rect_for_root, (None, current), nothing),
    ensures
        found is Some ==> found == Some(rect) && root == current,
        root == current && root != 0 ==> found == Some(rect),
        root == 0 ==> found is None,
        nothing is None,
{
}

/// The hotkey and a repetition give up all that runs; a gesture only the
/// extraction.
pub proof fn lemma_what_a_new_request_gives_up(
    trigger: TriggerKind,
    bypass: bool,
    cancel: CandidateCancellation,
)
    requires
        call_ensures(candidate_cancellation, (trigger, bypass), cancel),
    ensures
        trigger == TriggerKind::Manual ==> cancel == CandidateCancellation::AllInflight,
        bypass ==> cancel == CandidateCancellation::AllInflight,
        trigger != TriggerKind::Manual && !bypass ==> cancel
            == CandidateCancellation::ExtractionOnly,
{
}

/// The entry that was clicked is the profile, as long as the choice was drawn
/// under the configuration in force.
pub proof fn lemma_an_outdated_choice_chooses_nothing(
    profile_ids: &[String],
    index: usize,
    drawn: u64,
    current: u64,
    profile: Option<String>,
)
    requires
        call_ensures(profile_for_generation, (profile_ids, index, drawn, current), profile),
    ensures
        drawn != current ==> profile is None,
        index >= profile_ids@.len() ==> profile is None,
        drawn == current && index < profile_ids@.len() ==> profile == Some(
            profile_ids@[index as int],
        ),
{
}

/// Room is refused only to a popup that must be new, where four are shown and
/// none gives way.
pub proof fn lemma_when_there_is_no_room(
    force_new: bool,
    count: usize,
    candidate: Option<PopupId>,
    error: Option<ResultSurfaceError>,
)
    requires
        call_ensures(protected_capacity_error, (force_new, count, candidate), error),
    ensures
        error is Some ==> force_new && count >= 4 && candidate is None,
        force_new && count >= 4 && candidate is None ==> error == Some(
            ResultSurfaceError::ProtectedCapacity,
        ),
{
}

/// What is shown above an answer is the sentence, or the target without one.
pub proof fn lemma_the_sentence_is_shown(target: &str, sentence: &str, with: &str, without: &str)
    requires
        call_ensures(displayed_input, (target, Some(sentence)), with),
        call_ensures(displayed_input, (target, None), without),
    ensures
        with@ == sentence@,
        without@ == target@,
{
}

} // verus!
