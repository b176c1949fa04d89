//! Copying through the clipboard, with the clipboard restored afterwards.
//!
//! Copy is synthesized only once every format on the clipboard was cloned, at
//! most twice, and only for the expected source. The clipboard is put back only
//! while nothing but the synthesized copy has touched it. Times are nanoseconds
//! of a monotonic clock.

use crate::extraction::{ExtractionFailure, ExtractionResult, ExtractionSource, TextContext, TriggerKind};
use crate::utf16::{decode_utf16, text_of_utf16};
use vstd::prelude::*;

verus! {

pub const SNAPSHOT_TIMEOUT: u64 = 250_000_000;

pub const INPUT_TIMEOUT: u64 = 150_000_000;

pub const COPY_ATTEMPT_TIMEOUT: u64 = 250_000_000;

pub const WAIT_SLICE: u64 = 10_000_000;

/// How long the clipboard must stay unchanged before a copy counts as done.
pub const COPY_SETTLE: u64 = 20_000_000;

pub const RESTORE_TIMEOUT: u64 = 500_000_000;

/// How long a caller waits for the whole extraction.
pub const REQUEST_TIMEOUT: u64 = 1_800_000_000;

pub const MAX_CLIPBOARD_UNITS: usize = 1_000_000;

pub const MAX_SNAPSHOT_FORMATS: usize = 128;

pub const MAX_SNAPSHOT_BYTES: usize = 33_554_432;

pub const VK_LCONTROL: u16 = 0xa2;

pub const VK_C: u16 = 0x43;

pub const CF_BITMAP: u32 = 2;

pub const CF_METAFILEPICT: u32 = 3;

pub const CF_PALETTE: u32 = 9;

pub const CF_UNICODETEXT: u32 = 13;

pub const CF_ENHMETAFILE: u32 = 14;

pub const CF_OWNERDISPLAY: u32 = 0x80;

pub const CF_DSPBITMAP: u32 = 0x82;

pub const CF_DSPMETAFILEPICT: u32 = 0x83;

pub const CF_DSPENHMETAFILE: u32 = 0x8e;

pub const CF_PRIVATEFIRST: u32 = 0x200;

pub const CF_PRIVATELAST: u32 = 0x2ff;

pub const CF_GDIOBJFIRST: u32 = 0x300;

pub const CF_GDIOBJLAST: u32 = 0x3ff;

/// The longest waits of one extraction fit, one after the other, into the time
/// that its caller waits.
pub proof fn lemma_request_outlives_its_phases()
    ensures
        SNAPSHOT_TIMEOUT + INPUT_TIMEOUT + 2 * COPY_ATTEMPT_TIMEOUT + RESTORE_TIMEOUT
            < REQUEST_TIMEOUT,
        INPUT_TIMEOUT < COPY_ATTEMPT_TIMEOUT,
        WAIT_SLICE <= COPY_ATTEMPT_TIMEOUT,
{
}

// Who is copied from.

/// A window's process and its root window; zero is unknown.
#[derive(Clone, Copy, Debug, PartialEq, Eq, Structural)]
pub struct SourceIdentity {
    pub process_id: u32,
    pub root_window: isize,
}

/// What tells whether the clipboard was touched.
#[derive(Clone, Copy, Debug, PartialEq, Eq, Structural)]
pub struct ClipboardSignals {
    pub sequence: u32,
    pub owner: Option<isize>,
}

/// An expected root window must be the actual one. Without one the process
/// must match, unless that is unknown too.
pub open spec fn is_source(expected: SourceIdentity, actual: SourceIdentity) -> bool {
    if expected.root_window != 0 {
        expected.root_window == actual.root_window
    } else {
        expected.process_id == 0 || expected.process_id == actual.process_id
    }
}

pub fn source_identity_matches(expected: SourceIdentity, actual: SourceIdentity) -> (matches: bool)
    ensures
        matches == is_source(expected, actual),
{
    if expected.root_window != 0 {
        expected.root_window == actual.root_window
    } else {
        expected.process_id == 0 || expected.process_id == actual.process_id
    }
}

/// The identity of the foreground window: unknown where there is none, and its
/// own root where it has no other.
pub fn foreground_source_identity(foreground: isize, process_id: u32, root: isize) -> (identity:
    SourceIdentity)
    ensures
        identity == if foreground == 0 {
            SourceIdentity { process_id: 0, root_window: 0 }
        } else {
            SourceIdentity {
                process_id,
                root_window: if root == 0 {
                    foreground
                } else {
                    root
                },
            }
        },
{
    if foreground == 0 {
        return SourceIdentity { process_id: 0, root_window: 0 };
    }
    SourceIdentity {
        process_id,
        root_window: if root == 0 {
            foreground
        } else {
            root
        },
    }
}

/// A copy may be tried again only for the same source and while the clipboard
/// is as it was.
pub fn copy_retry_allowed(
    expected: SourceIdentity,
    actual: SourceIdentity,
    original: ClipboardSignals,
    current: ClipboardSignals,
) -> (allowed: bool)
    ensures
        allowed == (is_source(expected, actual) && original == current),
{
    source_identity_matches(expected, actual) && original.sequence == current.sequence
        && same_owner(original.owner, current.owner)
}

fn same_owner(a: Option<isize>, b: Option<isize>) -> (same: bool)
    ensures
        same == (a == b),
{
    match (a, b) {
        (Some(x), Some(y)) => x == y,
        (None, None) => true,
        _ => false,
    }
}

pub fn is_sequence_advance(before: u32, after: u32) -> (advance: bool)
    ensures
        advance == (after != before),
{
    after != before
}

/// The clipboard may be restored: the copy changed it, nothing has changed it
/// since, and the owner is the same. An unknown owner matches only an unknown
/// one.
pub open spec fn may_restore(
    original: u32,
    copy: u32,
    current: u32,
    copy_owner: Option<isize>,
    current_owner: Option<isize>,
) -> bool {
    copy != original && current == copy && copy_owner == current_owner
}

pub fn should_restore(
    original: u32,
    copy: u32,
    current: u32,
    copy_owner: Option<isize>,
    current_owner: Option<isize>,
) -> (restore: bool)
    ensures
        restore == may_restore(original, copy, current, copy_owner, current_owner),
{
    is_sequence_advance(original, copy) && current == copy && same_owner(copy_owner, current_owner)
}

/// Only explicit requests and selections copy.
pub fn clipboard_fallback_allowed(trigger: TriggerKind) -> (allowed: bool)
    ensures
        allowed == (trigger != TriggerKind::Hover),
{
    match trigger {
        TriggerKind::Hover => false,
        _ => true,
    }
}

// Waiting.

/// How long to sleep before looking again, in nanoseconds; `None` once the
/// deadline has passed.
pub fn next_wait(now: u64, deadline: u64) -> (wait: Option<u64>)
    ensures
        wait == if now > deadline {
            None
        } else if deadline - now <= WAIT_SLICE {
            Some((deadline - now) as u64)
        } else {
            Some(WAIT_SLICE)
        },
{
    if now > deadline {
        return None;
    }
    let remaining: u64 = deadline - now;
    if remaining <= WAIT_SLICE {
        Some(remaining)
    } else {
        Some(WAIT_SLICE)
    }
}

/// What to do after the clipboard's sequence number was read.
#[derive(Clone, Copy, Debug, PartialEq, Eq, Structural)]
pub enum SettleStep {
    /// It changed: read it again.
    Again,
    /// It has not changed for long enough: the copy is done.
    Settled,
    /// Sleep so long, in nanoseconds, and read it again.
    Sleep(u64),
}

/// Waits until the sequence number stays the same.
#[derive(Clone, Copy, Debug, PartialEq, Eq, Structural)]
pub struct CopySettle {
    pub current: u32,
    pub stable_until: u64,
    pub deadline: u64,
}

/// When the clipboard counts as settled if it does not change from `now` on:
/// after the settling time, but not after the deadline.
pub open spec fn settles_at(now: u64, deadline: u64) -> u64 {
    if now + COPY_SETTLE <= deadline {
        (now + COPY_SETTLE) as u64
    } else {
        deadline
    }
}

fn settle_time(now: u64, deadline: u64) -> (at: u64)
    ensures
        at == settles_at(now, deadline),
{
    match now.checked_add(COPY_SETTLE) {
        Some(at) => if at <= deadline {
            at
        } else {
            deadline
        },
        None => deadline,
    }
}

impl CopySettle {
    /// The first change was to `first`, at `now`.
    pub fn begin(first: u32, now: u64, deadline: u64) -> (settle: CopySettle)
        ensures
            settle == (CopySettle {
                current: first,
                stable_until: settles_at(now, deadline),
                deadline,
            }),
    {
        CopySettle { current: first, stable_until: settle_time(now, deadline), deadline }
    }

    /// The sequence number was `observed` at `now`. A change starts the
    /// settling time anew.
    pub fn observe(&mut self, observed: u32, now: u64) -> (step: SettleStep)
        ensures
            *final(self) == if observed != old(self).current {
                CopySettle {
                    current: observed,
                    stable_until: settles_at(now, old(self).deadline),
                    ..*old(self)
                }
            } else {
                *old(self)
            },
            step == if observed != old(self).current {
                SettleStep::Again
            } else if now >= old(self).stable_until {
                SettleStep::Settled
            } else if old(self).stable_until - now <= WAIT_SLICE {
                SettleStep::Sleep((old(self).stable_until - now) as u64)
            } else {
                SettleStep::Sleep(WAIT_SLICE)
            },
    {
        if observed != self.current {
            self.current = observed;
            self.stable_until = settle_time(now, self.deadline);
            return SettleStep::Again;
        }
        if now >= self.stable_until {
            return SettleStep::Settled;
        }
        let remaining: u64 = self.stable_until - now;
        if remaining <= WAIT_SLICE {
            SettleStep::Sleep(remaining)
        } else {
            SettleStep::Sleep(WAIT_SLICE)
        }
    }
}

// The keys of a copy.

/// A key going down or up.
#[derive(Clone, Copy, Debug, PartialEq, Eq, Structural)]
pub struct KeyEvent {
    pub key: u16,
    pub up: bool,
}

/// Control down, C down, C up, Control up.
pub open spec fn copy_keys() -> Seq<KeyEvent> {
    seq![
        KeyEvent { key: VK_LCONTROL, up: false },
        KeyEvent { key: VK_C, up: false },
        KeyEvent { key: VK_C, up: true },
        KeyEvent { key: VK_LCONTROL, up: true },
    ]
}

/// The keys that are down after the events.
pub open spec fn keys_down(events: Seq<KeyEvent>) -> Set<u16>
    decreases events.len(),
{
    if events.len() == 0 {
        Set::empty()
    } else {
        let before = keys_down(events.drop_last());
        if events.last().up {
            before.remove(events.last().key)
        } else {
            before.insert(events.last().key)
        }
    }
}

/// The key events that copy.
pub fn copy_inputs() -> (inputs: Vec<KeyEvent>)
    ensures
        inputs@ == copy_keys(),
{
    let mut inputs: Vec<KeyEvent> = Vec::new();
    inputs.push(KeyEvent { key: VK_LCONTROL, up: false });
    inputs.push(KeyEvent { key: VK_C, up: false });
    inputs.push(KeyEvent { key: VK_C, up: true });
    inputs.push(KeyEvent { key: VK_LCONTROL, up: true });
    inputs
}

/// The releases that undo the first `sent` events of a copy.
pub open spec fn release_keys(sent: int) -> Seq<KeyEvent> {
    if sent == 1 || sent == 3 {
        seq![KeyEvent { key: VK_LCONTROL, up: true }]
    } else if sent == 2 {
        seq![KeyEvent { key: VK_C, up: true }, KeyEvent { key: VK_LCONTROL, up: true }]
    } else {
        Seq::empty()
    }
}

pub fn release_partial_copy(sent: usize) -> (releases: Vec<KeyEvent>)
    ensures
        releases@ == release_keys(sent as int),
{
    let mut releases: Vec<KeyEvent> = Vec::new();
    if sent == 2 {
        releases.push(KeyEvent { key: VK_C, up: true });
    }
    if sent == 1 || sent == 2 || sent == 3 {
        releases.push(KeyEvent { key: VK_LCONTROL, up: true });
    }
    releases
}

/// However many events of a copy were injected, the releases leave no key
/// down.
pub proof fn lemma_partial_copy_leaves_no_key_down(sent: int)
    requires
        0 <= sent <= 4,
    ensures
        keys_down(copy_keys().take(sent) + release_keys(sent)) == Set::<u16>::empty(),
{
    let control = KeyEvent { key: VK_LCONTROL, up: false };
    let letter = KeyEvent { key: VK_C, up: false };
    let letter_up = KeyEvent { key: VK_C, up: true };
    let control_up = KeyEvent { key: VK_LCONTROL, up: true };
    let events = copy_keys().take(sent) + release_keys(sent);
    reveal_with_fuel(keys_down, 6);
    if sent == 0 {
        assert(events =~= Seq::<KeyEvent>::empty());
    } else if sent == 1 {
        assert(events =~= seq![control, control_up]);
        assert(events.drop_last() =~= seq![control]);
        assert(events.drop_last().drop_last() =~= Seq::<KeyEvent>::empty());
        assert(keys_down(events) =~= Set::<u16>::empty());
    } else {
        assert(events =~= seq![control, letter, letter_up, control_up]);
        assert(events.drop_last() =~= seq![control, letter, letter_up]);
        assert(events.drop_last().drop_last() =~= seq![control, letter]);
        assert(events.drop_last().drop_last().drop_last() =~= seq![control]);
        assert(events.drop_last().drop_last().drop_last().drop_last() =~= Seq::<
            KeyEvent,
        >::empty());
        assert(keys_down(events) =~= Set::<u16>::empty());
    }
}

/// A key is down where the high bit of its state is set.
pub fn is_key_down(state: i16) -> (down: bool)
    ensures
        down == (state < 0),
{
    state < 0
}

/// None of the keys is down.
pub fn modifiers_released(states: &[i16]) -> (released: bool)
    ensures
        released <==> forall|i: int| 0 <= i < states@.len() ==> states@[i] >= 0,
{
    let mut i: usize = 0;
    while i < states.len()
        invariant
            i <= states@.len(),
            forall|j: int| 0 <= j < i ==> states@[j] >= 0,
        decreases states@.len() - i,
    {
        if is_key_down(states[i]) {
            return false;
        }
        i = i + 1;
    }
    true
}

/// Why no copy was made, and whether one may have been made all the same.
#[derive(Clone, Copy, Debug, PartialEq, Eq, Structural)]
pub enum CopySendError {
    NoInput(ExtractionFailure),
    MayHaveCopied(ExtractionFailure),
}

pub fn may_have_produced_copy(error: &CopySendError) -> (may: bool)
    ensures
        may == (error is MayHaveCopied),
{
    match error {
        CopySendError::MayHaveCopied(_) => true,
        CopySendError::NoInput(_) => false,
    }
}

/// What is known right before a copy is injected.
#[derive(Clone, Copy, Debug, PartialEq, Eq, Structural)]
pub struct CopyCheck {
    /// The modifiers came up in time, and are still up.
    pub modifiers_released: bool,
    pub actual: SourceIdentity,
    pub signals: ClipboardSignals,
}

/// Keys may be injected: no modifier is down, the source is the expected one
/// and, for a second attempt, the clipboard is as it was.
pub open spec fn may_inject(
    expected: SourceIdentity,
    unchanged_since: Option<ClipboardSignals>,
    check: CopyCheck,
) -> bool {
    &&& check.modifiers_released
    &&& is_source(expected, check.actual)
    &&& unchanged_since matches Some(signals) ==> signals == check.signals
}

/// Whether to inject a copy.
pub fn check_copy(
    expected: SourceIdentity,
    unchanged_since: Option<ClipboardSignals>,
    check: CopyCheck,
) -> (checked: Result<(), CopySendError>)
    ensures
        checked == if may_inject(expected, unchanged_since, check) {
            Ok(())
        } else {
            Err(CopySendError::NoInput(ExtractionFailure::PermissionDenied))
        },
{
    if !check.modifiers_released || !source_identity_matches(expected, check.actual) {
        return Err(CopySendError::NoInput(ExtractionFailure::PermissionDenied));
    }
    if let Some(signals) = unchanged_since {
        if signals.sequence != check.signals.sequence || !same_owner(
            signals.owner,
            check.signals.owner,
        ) {
            return Err(CopySendError::NoInput(ExtractionFailure::PermissionDenied));
        }
    }
    Ok(())
}

/// What the number of injected events means.
pub fn sent_copy(sent: usize) -> (outcome: Result<(), CopySendError>)
    ensures
        outcome == if sent == 4 {
            Ok(())
        } else if sent == 0 {
            Err(CopySendError::NoInput(ExtractionFailure::PermissionDenied))
        } else {
            Err(CopySendError::MayHaveCopied(ExtractionFailure::PermissionDenied))
        },
{
    if sent == 4 {
        Ok(())
    } else if sent == 0 {
        Err(CopySendError::NoInput(ExtractionFailure::PermissionDenied))
    } else {
        Err(CopySendError::MayHaveCopied(ExtractionFailure::PermissionDenied))
    }
}

// The snapshot.

#[derive(Clone, Copy, Debug, PartialEq, Eq, Structural)]
pub enum ClipboardStorage {
    HGlobal,
    Unsupported,
}

/// Formats whose handle is not plain memory: drawings, palettes, and what only
/// its owner understands.
pub open spec fn is_special_format(format: u32) -> bool {
    format == CF_BITMAP || format == CF_METAFILEPICT || format == CF_PALETTE || format
        == CF_ENHMETAFILE || format == CF_OWNERDISPLAY || format == CF_DSPBITMAP || format
        == CF_DSPMETAFILEPICT || format == CF_DSPENHMETAFILE || CF_PRIVATEFIRST <= format
        <= CF_PRIVATELAST || CF_GDIOBJFIRST <= format <= CF_GDIOBJLAST
}

pub fn classify_storage(format: u32) -> (storage: ClipboardStorage)
    ensures
        storage == if is_special_format(format) {
            ClipboardStorage::Unsupported
        } else {
            ClipboardStorage::HGlobal
        },
{
    if format == CF_BITMAP || format == CF_METAFILEPICT || format == CF_PALETTE || format
        == CF_ENHMETAFILE || format == CF_OWNERDISPLAY || format == CF_DSPBITMAP || format
        == CF_DSPMETAFILEPICT || format == CF_DSPENHMETAFILE || (CF_PRIVATEFIRST <= format && format
        <= CF_PRIVATELAST) || (CF_GDIOBJFIRST <= format && format <= CF_GDIOBJLAST) {
        ClipboardStorage::Unsupported
    } else {
        ClipboardStorage::HGlobal
    }
}

/// One more format of `next_bytes` bytes fits into a snapshot.
pub open spec fn fits_snapshot(format_count: int, bytes: int, next_bytes: int) -> bool {
    format_count < MAX_SNAPSHOT_FORMATS && next_bytes > 0 && bytes + next_bytes
        <= MAX_SNAPSHOT_BYTES
}

pub fn snapshot_budget_allows(format_count: usize, bytes: usize, next_bytes: usize) -> (allows: bool)
    ensures
        allows == fits_snapshot(format_count as int, bytes as int, next_bytes as int),
{
    if format_count >= MAX_SNAPSHOT_FORMATS || next_bytes == 0 {
        return false;
    }
    match bytes.checked_add(next_bytes) {
        Some(total) => total <= MAX_SNAPSHOT_BYTES,
        None => false,
    }
}

/// Why there is no snapshot: the clipboard changed meanwhile, or a format
/// cannot be cloned.
#[derive(Clone, Copy, Debug, PartialEq, Eq, Structural)]
pub enum SnapshotFailure {
    Changed,
    Unsafe,
}

/// What to do after the next format was asked for.
#[derive(Clone, Copy, Debug, PartialEq, Eq, Structural)]
pub enum SnapshotStep {
    /// Clone this format.
    Clone(u32),
    /// There are no more formats.
    Complete,
    Fail(SnapshotFailure),
}

/// The formats cloned so far.
#[derive(Debug, PartialEq, Eq)]
pub struct SnapshotProgress {
    pub formats: Vec<u32>,
    pub total_bytes: usize,
    /// The sequence number when the snapshot began.
    pub before: u32,
}

impl SnapshotProgress {
    /// Only plain memory was cloned, within both bounds.
    pub open spec fn wf(self) -> bool {
        &&& self.formats@.len() <= MAX_SNAPSHOT_FORMATS
        &&& self.total_bytes <= MAX_SNAPSHOT_BYTES
        &&& forall|i: int|
            0 <= i < self.formats@.len() ==> !is_special_format(#[trigger] self.formats@[i])
    }

    pub fn begin(sequence: u32) -> (progress: SnapshotProgress)
        ensures
            progress.formats@ == Seq::<u32>::empty(),
            progress.total_bytes == 0,
            progress.before == sequence,
            progress.wf(),
    {
        SnapshotProgress { formats: Vec::new(), total_bytes: 0, before: sequence }
    }

    /// The format to continue the enumeration from; zero begins it.
    pub fn current(&self) -> (format: u32)
        ensures
            format == if self.formats@.len() == 0 {
                0
            } else {
                self.formats@.last()
            },
    {
        if self.formats.len() == 0 {
            0
        } else {
            self.formats[self.formats.len() - 1]
        }
    }

    /// The enumeration gave `next`; zero ends it, cleanly only without an
    /// error.
    pub fn enumerated(&self, in_time: bool, next: u32, last_error: u32) -> (step: SnapshotStep)
        ensures
            step == if !in_time {
                SnapshotStep::Fail(SnapshotFailure::Unsafe)
            } else if next == 0 {
                if last_error != 0 {
                    SnapshotStep::Fail(SnapshotFailure::Unsafe)
                } else {
                    SnapshotStep::Complete
                }
            } else if is_special_format(next) {
                SnapshotStep::Fail(SnapshotFailure::Unsafe)
            } else {
                SnapshotStep::Clone(next)
            },
    {
        if !in_time {
            return SnapshotStep::Fail(SnapshotFailure::Unsafe);
        }
        if next == 0 {
            return if last_error != 0 {
                SnapshotStep::Fail(SnapshotFailure::Unsafe)
            } else {
                SnapshotStep::Complete
            };
        }
        match classify_storage(next) {
            ClipboardStorage::HGlobal => SnapshotStep::Clone(next),
            ClipboardStorage::Unsupported => SnapshotStep::Fail(SnapshotFailure::Unsafe),
        }
    }

    /// The data of a format, `size` bytes of it, may be cloned; it has no size
    /// where it could not be had.
    pub fn admits(&self, size: Option<usize>) -> (admitted: Result<(), SnapshotFailure>)
        ensures
            admitted == if size is Some && fits_snapshot(
                self.formats@.len() as int,
                self.total_bytes as int,
                size.unwrap() as int,
            ) {
                Ok(())
            } else {
                Err(SnapshotFailure::Unsafe)
            },
    {
        match size {
            Some(bytes) => if snapshot_budget_allows(self.formats.len(), self.total_bytes, bytes) {
                Ok(())
            } else {
                Err(SnapshotFailure::Unsafe)
            },
            None => Err(SnapshotFailure::Unsafe),
        }
    }

    /// An admitted format was, or was not, cloned.
    pub fn cloned(&mut self, format: u32, size: usize, duplicated: bool) -> (outcome: Result<
        (),
        SnapshotFailure,
    >)
        requires
            old(self).wf(),
            !is_special_format(format),
            fits_snapshot(
                old(self).formats@.len() as int,
                old(self).total_bytes as int,
                size as int,
            ),
        ensures
            outcome == if duplicated {
                Ok(())
            } else {
                Err(SnapshotFailure::Unsafe)
            },
            final(self).formats@ == if duplicated {
                old(self).formats@.push(format)
            } else {
                old(self).formats@
            },
            final(self).total_bytes == if duplicated {
                old(self).total_bytes + size
            } else {
                old(self).total_bytes as int
            },
            final(self).before == old(self).before,
            final(self).wf(),
    {
        if !duplicated {
            return Err(SnapshotFailure::Unsafe);
        }
        self.total_bytes = self.total_bytes + size;
        self.formats.push(format);
        Ok(())
    }

    /// The snapshot is complete: it holds where the clipboard did not change
    /// meanwhile.
    pub fn finish(&self, in_time: bool, signals: ClipboardSignals) -> (taken: Result<
        ClipboardSignals,
        SnapshotFailure,
    >)
        ensures
            taken == if !in_time {
                Err(SnapshotFailure::Unsafe)
            } else if self.before != signals.sequence {
                Err(SnapshotFailure::Changed)
            } else {
                Ok(signals)
            },
    {
        if !in_time {
            return Err(SnapshotFailure::Unsafe);
        }
        if self.before != signals.sequence {
            return Err(SnapshotFailure::Changed);
        }
        Ok(signals)
    }
}

/// After a failed snapshot: a clipboard that changed is tried again after a
/// wait, while there is time.
pub fn snapshot_retry(failure: SnapshotFailure, now: u64, deadline: u64) -> (wait: Result<
    u64,
    ExtractionFailure,
>)
    ensures
        wait == if failure == SnapshotFailure::Changed && now <= deadline {
            Ok(
                if deadline - now <= WAIT_SLICE {
                    (deadline - now) as u64
                } else {
                    WAIT_SLICE
                },
            )
        } else {
            Err(ExtractionFailure::Platform)
        },
{
    match failure {
        SnapshotFailure::Unsafe => Err(ExtractionFailure::Platform),
        SnapshotFailure::Changed => match next_wait(now, deadline) {
            Some(wait) => Ok(wait),
            None => Err(ExtractionFailure::Platform),
        },
    }
}

// Reading the copied text.

/// A step of reading text from the clipboard.
#[derive(Clone, Copy, Debug, PartialEq, Eq, Structural)]
pub enum ReadStep {
    FindFormat,
    Open,
    GetData,
    Lock,
}

/// What a failed step of reading means: there is no text, or it cannot be had.
pub fn read_failure(step: ReadStep) -> (failure: ExtractionFailure)
    ensures
        failure == if step == ReadStep::FindFormat || step == ReadStep::GetData {
            ExtractionFailure::EmptyRange
        } else {
            ExtractionFailure::Platform
        },
{
    match step {
        ReadStep::FindFormat | ReadStep::GetData => ExtractionFailure::EmptyRange,
        ReadStep::Open | ReadStep::Lock => ExtractionFailure::Platform,
    }
}

/// How many units of `bytes` bytes of text are read.
pub fn readable_units(bytes: usize) -> (units: Result<usize, ExtractionFailure>)
    ensures
        units == if bytes < 2 {
            Err(ExtractionFailure::EmptyRange)
        } else if bytes / 2 <= MAX_CLIPBOARD_UNITS {
            Ok((bytes / 2) as usize)
        } else {
            Ok(MAX_CLIPBOARD_UNITS)
        },
{
    if bytes < 2 {
        return Err(ExtractionFailure::EmptyRange);
    }
    let units: usize = bytes / 2;
    if units <= MAX_CLIPBOARD_UNITS {
        Ok(units)
    } else {
        Ok(MAX_CLIPBOARD_UNITS)
    }
}

/// The number of units before the first zero.
pub open spec fn terminated_len(units: Seq<u16>) -> nat
    decreases units.len(),
{
    if units.len() == 0 || units[0] == 0 {
        0
    } else {
        1 + terminated_len(units.drop_first())
    }
}

/// The text before the first zero unit, or the whole of it.
pub fn clipboard_text(units: &[u16]) -> (text: Result<String, ExtractionFailure>)
    ensures
        match text {
            Ok(text) => decode_utf16(units@.take(terminated_len(units@) as int)) == Some(text@),
            Err(failure) => failure == ExtractionFailure::Platform && decode_utf16(
                units@.take(terminated_len(units@) as int),
            ) is None,
        },
{
    let mut length: usize = 0;
    proof {
        assert(units@.skip(0) =~= units@);
    }
    while length < units.len() && units[length] != 0
        invariant
            length <= units@.len(),
            terminated_len(units@) == length + terminated_len(units@.skip(length as int)),
        decreases units@.len() - length,
    {
        proof {
            assert(units@.skip(length as int).drop_first() =~= units@.skip(length as int + 1));
        }
        length = length + 1;
    }
    proof {
        assert(terminated_len(units@) == length);
    }
    let part: &[u16] = vstd::slice::slice_subrange(units, 0, length);
    proof {
        assert(part@ =~= units@.take(length as int));
    }
    match text_of_utf16(part) {
        Some(text) => Ok(text),
        None => Err(ExtractionFailure::Platform),
    }
}

// One extraction.

/// What is remembered for putting the clipboard back.
#[derive(Clone, Copy, Debug, PartialEq, Eq, Structural)]
pub struct RestoreGuard {
    pub original: ClipboardSignals,
    /// The settled copy, once one was seen.
    pub copy: Option<ClipboardSignals>,
}

impl RestoreGuard {
    /// A copy was seen; one that did not change the clipboard is none.
    pub fn observe_copy(&mut self, copy: ClipboardSignals)
        ensures
            *final(self) == old(self).observing(copy),
    {
        if is_sequence_advance(self.original.sequence, copy.sequence) {
            self.copy = Some(copy);
        }
    }

    pub open spec fn observing(self, copy: ClipboardSignals) -> RestoreGuard {
        if copy.sequence != self.original.sequence {
            RestoreGuard { copy: Some(copy), ..self }
        } else {
            self
        }
    }

    /// The clipboard, now with the signals `current`, is to be put back.
    pub open spec fn restores(self, current: ClipboardSignals) -> bool {
        self.copy matches Some(copy) && may_restore(
            self.original.sequence,
            copy.sequence,
            current.sequence,
            copy.owner,
            current.owner,
        )
    }

    pub fn restore_now(&self, current: ClipboardSignals) -> (restore: bool)
        ensures
            restore == self.restores(current),
    {
        match self.copy {
            Some(copy) => should_restore(
                self.original.sequence,
                copy.sequence,
                current.sequence,
                copy.owner,
                current.owner,
            ),
            None => false,
        }
    }
}

/// What an extraction through the clipboard does next.
#[derive(Debug, PartialEq, Eq)]
pub enum CopyState {
    /// Inject a copy; a second attempt only while the clipboard is unchanged.
    Send { second: bool },
    /// Wait until the copy settles.
    Settle { second: bool },
    /// Wait until a copy that was cut short settles; the failure stands.
    SettleFailed(ExtractionFailure),
    /// Read the copied text and normalize it.
    Read,
    Finished(ExtractionResult),
}

/// What an extraction through the clipboard is told.
#[derive(Debug, PartialEq, Eq)]
pub enum CopyEvent {
    Sent(Result<(), CopySendError>),
    /// The settled copy, if there was one, the foreground window and the
    /// clipboard's signals after the wait.
    Settled { copy: Option<ClipboardSignals>, actual: SourceIdentity, current: ClipboardSignals },
    /// The normalized text.
    Text(Result<String, ExtractionFailure>),
}

/// One extraction, from a complete snapshot on.
#[derive(Debug, PartialEq, Eq)]
pub struct CopyRun {
    pub expected: SourceIdentity,
    pub guard: RestoreGuard,
    pub state: CopyState,
}

/// The event answers the state.
pub open spec fn copy_event_fits(state: CopyState, event: CopyEvent) -> bool {
    match state {
        CopyState::Send { .. } => event is Sent,
        CopyState::Settle { .. } | CopyState::SettleFailed(_) => event is Settled,
        CopyState::Read => event is Text,
        CopyState::Finished(_) => false,
    }
}

/// The state after an event that answers `run.state`.
pub open spec fn copy_next(run: CopyRun, event: CopyEvent) -> CopyState {
    match (run.state, event) {
        (CopyState::Send { second }, CopyEvent::Sent(sent)) => match sent {
            Ok(()) => CopyState::Settle { second },
            Err(CopySendError::MayHaveCopied(failure)) => CopyState::SettleFailed(failure),
            Err(CopySendError::NoInput(failure)) => CopyState::Finished(Err(failure)),
        },
        (CopyState::Settle { second }, CopyEvent::Settled { copy, actual, current }) => if copy
            is Some {
            CopyState::Read
        } else if !second && is_source(run.expected, actual) && run.guard.original == current {
            CopyState::Send { second: true }
        } else {
            CopyState::Finished(Err(ExtractionFailure::EmptyRange))
        },
        (CopyState::SettleFailed(failure), _) => CopyState::Finished(Err(failure)),
        (CopyState::Read, CopyEvent::Text(text)) => CopyState::Finished(
            match text {
                Err(failure) => Err(failure),
                Ok(target) => if target@.len() == 0 {
                    Err(ExtractionFailure::EmptyRange)
                } else {
                    Ok(
                        TextContext {
                            target,
                            context: None,
                            source: ExtractionSource::Clipboard,
                            screen_rect: None,
                        },
                    )
                },
            },
        ),
        _ => CopyState::Finished(Err(ExtractionFailure::Platform)),
    }
}

/// The guard after an event: a settled copy is remembered.
pub open spec fn guard_next(guard: RestoreGuard, event: CopyEvent) -> RestoreGuard {
    match event {
        CopyEvent::Settled { copy: Some(copy), .. } => guard.observing(copy),
        _ => guard,
    }
}

impl CopyRun {
    /// The clipboard was cloned with the signals `original`.
    pub fn begin(expected: SourceIdentity, original: ClipboardSignals) -> (run: CopyRun)
        ensures
            run == (CopyRun {
                expected,
                guard: RestoreGuard { original, copy: None },
                state: CopyState::Send { second: false },
            }),
    {
        CopyRun {
            expected,
            guard: RestoreGuard { original, copy: None },
            state: CopyState::Send { second: false },
        }
    }

    /// The signals that must not have changed when a copy is injected.
    pub fn unchanged_since(&self) -> (signals: Option<ClipboardSignals>)
        ensures
            signals == if self.state == (CopyState::Send { second: true }) {
                Some(self.guard.original)
            } else {
                None
            },
    {
        match self.state {
            CopyState::Send { second: true } => Some(self.guard.original),
            _ => None,
        }
    }

    /// Advances past the event that the extraction waited for.
    pub fn step(self, event: CopyEvent) -> (next: CopyRun)
        requires
            copy_event_fits(self.state, event),
        ensures
            next == (CopyRun {
                expected: self.expected,
                guard: guard_next(self.guard, event),
                state: copy_next(self, event),
            }),
    {
        let expected: SourceIdentity = self.expected;
        let mut guard: RestoreGuard = self.guard;
        if let CopyEvent::Settled { copy: Some(copy), .. } = &event {
            guard.observe_copy(*copy);
        }
        let original: ClipboardSignals = self.guard.original;
        let state: CopyState = match self.state {
            CopyState::Send { second } => match event {
                CopyEvent::Sent(Ok(())) => CopyState::Settle { second },
                CopyEvent::Sent(Err(CopySendError::MayHaveCopied(failure))) => {
                    CopyState::SettleFailed(failure)
                },
                CopyEvent::Sent(Err(CopySendError::NoInput(failure))) => CopyState::Finished(
                    Err(failure),
                ),
                _ => CopyState::Finished(Err(ExtractionFailure::Platform)),
            },
            CopyState::Settle { second } => match event {
                CopyEvent::Settled { copy, actual, current } => if copy.is_some() {
                    CopyState::Read
                } else if !second && copy_retry_allowed(expected, actual, original, current) {
                    CopyState::Send { second: true }
                } else {
                    CopyState::Finished(Err(ExtractionFailure::EmptyRange))
                },
                _ => CopyState::Finished(Err(ExtractionFailure::Platform)),
            },
            CopyState::SettleFailed(failure) => CopyState::Finished(Err(failure)),
            CopyState::Read => match event {
                CopyEvent::Text(Ok(target)) => if target.as_str().is_empty() {
                    CopyState::Finished(Err(ExtractionFailure::EmptyRange))
                } else {
                    CopyState::Finished(
                        Ok(
                            TextContext {
                                target,
                                context: None,
                                source: ExtractionSource::Clipboard,
                                screen_rect: None,
                            },
                        ),
                    )
                },
                CopyEvent::Text(Err(failure)) => CopyState::Finished(Err(failure)),
                _ => CopyState::Finished(Err(ExtractionFailure::Platform)),
            },
            CopyState::Finished(_) => CopyState::Finished(Err(ExtractionFailure::Platform)),
        };
        CopyRun { expected, guard, state }
    }
}

/// How many copies may still be injected.
pub open spec fn copies_left(state: CopyState) -> nat {
    match state {
        CopyState::Send { second: false } => 2,
        CopyState::Send { second: true } => 1,
        CopyState::Settle { second: false } => 1,
        _ => 0,
    }
}

/// At most two copies are injected, and the second only for the expected
/// source while the clipboard is exactly as it was when it was cloned.
pub proof fn lemma_copy_is_injected_at_most_twice(run: CopyRun, event: CopyEvent)
    requires
        copy_event_fits(run.state, event),
    ensures
        copies_left(copy_next(run, event)) <= copies_left(run.state),
        run.state is Send ==> copies_left(copy_next(run, event)) < copies_left(run.state),
        copy_next(run, event) is Send ==> (event matches CopyEvent::Settled {
            copy,
            actual,
            current,
        } && copy is None && is_source(run.expected, actual) && current == run.guard.original),
{
}

/// Nothing but the synthesized copy is ever overwritten: the clipboard is put
/// back only while it is exactly as the copy left it, and never where no copy
/// was seen.
pub proof fn lemma_restoring_overwrites_only_the_copy(
    guard: RestoreGuard,
    event: CopyEvent,
    current: ClipboardSignals,
)
    requires
        guard.copy matches Some(copy) ==> copy.sequence != guard.original.sequence,
    ensures
        guard.restores(current) ==> guard.copy == Some(current) && current.sequence
            != guard.original.sequence,
        guard.copy is None ==> !guard.restores(current),
        guard_next(guard, event).copy matches Some(copy) ==> copy.sequence
            != guard.original.sequence,
        guard_next(guard, event).original == guard.original,
{
}

/// What putting the clipboard back does next.
#[derive(Clone, Copy, Debug, PartialEq, Eq, Structural)]
pub enum RestoreStep {
    CreateOwner,
    Open,
    /// Compare the signals once more, now that nobody else can change them.
    Revalidate,
    Empty,
    /// Hand every cloned format over; a failure of one does not stop the rest.
    Transfer,
    Done,
}

/// The step after `step` succeeded or failed; a failure leaves the clipboard
/// alone.
pub fn restore_next(step: RestoreStep, succeeded: bool) -> (next: RestoreStep)
    ensures
        next == if !succeeded {
            RestoreStep::Done
        } else {
            match step {
                RestoreStep::CreateOwner => RestoreStep::Open,
                RestoreStep::Open => RestoreStep::Revalidate,
                RestoreStep::Revalidate => RestoreStep::Empty,
                RestoreStep::Empty => RestoreStep::Transfer,
                RestoreStep::Transfer => RestoreStep::Done,
                RestoreStep::Done => RestoreStep::Done,
            }
        },
{
    if !succeeded {
        return RestoreStep::Done;
    }
    match step {
        RestoreStep::CreateOwner => RestoreStep::Open,
        RestoreStep::Open => RestoreStep::Revalidate,
        RestoreStep::Revalidate => RestoreStep::Empty,
        RestoreStep::Empty => RestoreStep::Transfer,
        RestoreStep::Transfer => RestoreStep::Done,
        RestoreStep::Done => RestoreStep::Done,
    }
}

/// How long to wait next for the worker's answer, in nanoseconds.
pub fn response_wait(cancelled: bool, now: u64, deadline: u64) -> (wait: Result<
    u64,
    ExtractionFailure,
>)
    ensures
        wait == if cancelled || now > deadline {
            Err(ExtractionFailure::Platform)
        } else if deadline - now <= WAIT_SLICE {
            Ok((deadline - now) as u64)
        } else {
            Ok(WAIT_SLICE)
        },
{
    if cancelled {
        return Err(ExtractionFailure::Platform);
    }
    match next_wait(now, deadline) {
        Some(wait) => Ok(wait),
        None => Err(ExtractionFailure::Platform),
    }
}

// What the rules above are for.

/// Another window than the expected one is no source, whatever its process;
/// where no window is expected, another process is none. The expected window
/// is a source, and so is anything where nothing is expected.
pub proof fn lemma_copies_come_from_the_expected_source(
    expected: SourceIdentity,
    actual: SourceIdentity,
)
    ensures
        expected.root_window != 0 && actual.root_window != expected.root_window ==> !is_source(
            expected,
            actual,
        ),
        expected.root_window == 0 && expected.process_id != 0 && actual.process_id
            != expected.process_id ==> !is_source(expected, actual),
        actual == expected ==> is_source(expected, actual),
        expected.root_window != 0 && actual.root_window == expected.root_window ==> is_source(
            expected,
            actual,
        ),
        expected.process_id == 0 && expected.root_window == 0 ==> is_source(expected, actual),
{
}

/// The clipboard that holds the copy is put back, the one that anything else
/// has touched is not, and one that was never changed is left alone.
pub proof fn lemma_only_the_own_copy_is_undone(
    original: ClipboardSignals,
    copy: ClipboardSignals,
    current: ClipboardSignals,
)
    ensures
        ({
            let guard = RestoreGuard { original, copy: None }.observing(copy);
            &&& guard.original == original
            &&& copy.sequence != original.sequence ==> guard.restores(copy)
            &&& current.sequence != copy.sequence ==> !guard.restores(current)
            &&& current.owner != copy.owner ==> !guard.restores(current)
            &&& copy.sequence == original.sequence ==> !guard.restores(current)
        }),
        !(RestoreGuard { original, copy: None }).restores(current),
{
}

/// Of two copies that were seen the later one is what the clipboard must hold.
pub proof fn lemma_the_later_copy_counts(
    guard: RestoreGuard,
    first: ClipboardSignals,
    second: ClipboardSignals,
)
    requires
        second.sequence != guard.original.sequence,
    ensures
        guard.observing(first).observing(second).copy == Some(second),
        guard.observing(first).observing(second).restores(second),
        first.sequence != second.sequence ==> !guard.observing(first).observing(second).restores(
            first,
        ),
{
}

/// The clipboard counts as settled twenty milliseconds after its last change,
/// sooner only where the deadline comes first, and never after that.
pub proof fn lemma_a_copy_settles_in_twenty_milliseconds(now: u64, deadline: u64)
    requires
        now <= deadline,
    ensures
        now <= settles_at(now, deadline) <= deadline,
        deadline - now >= 20_000_000 ==> settles_at(now, deadline) - now == 20_000_000,
        deadline - now < 20_000_000 ==> settles_at(now, deadline) == deadline,
{
}

/// The events of a copy press the left Control key, then C while Control is
/// down, and let go of both.
pub proof fn lemma_a_copy_presses_control_and_c()
    ensures
        copy_keys().len() == 4,
        keys_down(copy_keys().take(1)) == set![0xa2u16],
        keys_down(copy_keys().take(2)) == set![0xa2u16, 0x43u16],
        keys_down(copy_keys()) == Set::<u16>::empty(),
{
    reveal_with_fuel(keys_down, 6);
    let all = copy_keys();
    assert(all.take(1).drop_last() =~= Seq::<KeyEvent>::empty());
    assert(keys_down(all.take(1)) =~= set![0xa2u16]);
    assert(all.take(2).drop_last() =~= all.take(1));
    assert(keys_down(all.take(2)) =~= set![0xa2u16, 0x43u16]);
    lemma_partial_copy_leaves_no_key_down(4);
    assert(all.take(4) + release_keys(4) =~= all);
}

/// What was not pressed is not let go: every release undoes a key that is down.
pub proof fn lemma_only_pressed_keys_are_released(sent: int, i: int)
    requires
        0 <= sent <= 4,
        0 <= i < release_keys(sent).len(),
    ensures
        release_keys(sent)[i].up,
        keys_down(copy_keys().take(sent)).contains(release_keys(sent)[i].key),
{
    reveal_with_fuel(keys_down, 6);
    let all = copy_keys();
    assert(all.take(1).drop_last() =~= Seq::<KeyEvent>::empty());
    assert(all.take(2).drop_last() =~= all.take(1));
    assert(all.take(3).drop_last() =~= all.take(2));
}

/// Keys are injected for the expected source while no modifier is down; a
/// second time only while the clipboard is untouched.
pub proof fn lemma_keys_are_injected_only_where_they_belong(
    expected: SourceIdentity,
    since: Option<ClipboardSignals>,
    check: CopyCheck,
)
    ensures
        !check.modifiers_released ==> !may_inject(expected, since, check),
        expected.root_window != 0 && check.actual.root_window != expected.root_window
            ==> !may_inject(expected, since, check),
        expected.root_window == 0 && expected.process_id != 0 && check.actual.process_id
            != expected.process_id ==> !may_inject(expected, since, check),
        since matches Some(signals) ==> (signals.sequence != check.signals.sequence || signals.owner
            != check.signals.owner ==> !may_inject(expected, since, check)),
        check.modifiers_released && check.actual == expected ==> may_inject(expected, None, check)
            && may_inject(expected, Some(check.signals), check),
{
}

/// The pictures, palettes and private formats are not plain memory; text,
/// device-independent bitmaps, file lists and registered formats are.
pub proof fn lemma_text_is_plain_memory(format: u32)
    ensures
        format == 2 || format == 3 || format == 9 || format == 14 ==> is_special_format(format),
        format == 0x80 || format == 0x82 || format == 0x83 || format == 0x8e ==> is_special_format(
            format,
        ),
        0x200 <= format < 0x400 ==> is_special_format(format),
        format == 1 || 4 <= format <= 8 || 10 <= format <= 13 || 15 <= format < 0x80
            ==> !is_special_format(format),
        format == 0x81 || 0x84 <= format < 0x8e || 0x8f <= format < 0x200 || format >= 0x400
            ==> !is_special_format(format),
{
}

/// A snapshot holds at most 128 formats and 32 MiB, and no empty format; what
/// leaves room is taken in.
pub proof fn lemma_a_snapshot_is_bounded(count: int, bytes: int, next: int)
    requires
        0 <= count,
        0 <= bytes,
        0 <= next,
    ensures
        fits_snapshot(count, bytes, next) ==> count + 1 <= 128 && bytes + next <= 32 * 1024 * 1024,
        !fits_snapshot(count, bytes, 0),
        next > 0 && count + 1 <= 128 && bytes + next <= 32 * 1024 * 1024 ==> fits_snapshot(
            count,
            bytes,
            next,
        ),
{
}

/// Text ends before its first zero, and nowhere else.
pub proof fn lemma_text_ends_at_the_first_zero(units: Seq<u16>)
    ensures
        terminated_len(units) <= units.len(),
        forall|i: int| 0 <= i < terminated_len(units) ==> units[i] != 0,
        terminated_len(units) < units.len() ==> units[terminated_len(units) as int] == 0,
    decreases units.len(),
{
    if units.len() > 0 && units[0] != 0 {
        let rest = units.drop_first();
        lemma_text_ends_at_the_first_zero(rest);
        assert forall|i: int| 0 <= i < terminated_len(units) implies units[i] != 0 by {
            if i > 0 {
                assert(units[i] == rest[i - 1]);
            }
        }
        if terminated_len(units) < units.len() {
            assert(units[terminated_len(units) as int] == rest[terminated_len(rest) as int]);
        }
    }
}

/// A copy that is sent, settles and is read gives its text, whichever attempt
/// it was; a copy that left no text gives none.
pub proof fn lemma_a_copy_that_works_gives_its_text(
    run: CopyRun,
    second: bool,
    copy: ClipboardSignals,
    actual: SourceIdentity,
    current: ClipboardSignals,
    text: String,
)
    requires
        run.state == (CopyState::Send { second }),
    ensures
        ({
            let sent = copy_next(run, CopyEvent::Sent(Ok(())));
            let settled = copy_next(
                CopyRun { state: sent, ..run },
                CopyEvent::Settled { copy: Some(copy), actual, current },
            );
            let read = copy_next(CopyRun { state: settled, ..run }, CopyEvent::Text(Ok(text)));
            &&& read is Finished
            &&& text@.len() > 0 ==> (read matches CopyState::Finished(Ok(found)) && found.target
                == text && found.context is None && found.source == ExtractionSource::Clipboard
                && found.screen_rect is None)
            &&& text@.len() == 0 ==> read == CopyState::Finished(
                Err(ExtractionFailure::EmptyRange),
            )
        }),
{
}

/// Where nothing was copied the first time, a second attempt follows as long
/// as the source and the clipboard are the same, and no third one follows.
pub proof fn lemma_a_copy_is_tried_again_once(
    run: CopyRun,
    second: bool,
    actual: SourceIdentity,
    current: ClipboardSignals,
)
    requires
        run.state == (CopyState::Settle { second }),
    ensures
        ({
            let next = copy_next(run, CopyEvent::Settled { copy: None, actual, current });
            &&& !second && actual == run.expected && current == run.guard.original ==> next == (
            CopyState::Send { second: true })
            &&& second ==> next == CopyState::Finished(Err(ExtractionFailure::EmptyRange))
            &&& current.sequence != run.guard.original.sequence || current.owner
                != run.guard.original.owner ==> next == CopyState::Finished(
                Err(ExtractionFailure::EmptyRange),
            )
            &&& run.expected.root_window != 0 && actual.root_window != run.expected.root_window
                ==> next == CopyState::Finished(Err(ExtractionFailure::EmptyRange))
        }),
{
}

/// Input that was cut short fails with what cut it short, after the wait for
/// the copy that it may have made; input that was never sent fails at once.
/// Either way a copy that is seen meanwhile is remembered, so that it is
/// undone.
pub proof fn lemma_interrupted_input_fails_as_it_was(
    run: CopyRun,
    second: bool,
    failure: ExtractionFailure,
    copy: ClipboardSignals,
    actual: SourceIdentity,
    current: ClipboardSignals,
)
    requires
        run.state == (CopyState::Send { second }),
        copy.sequence != run.guard.original.sequence,
    ensures
        copy_next(run, CopyEvent::Sent(Err(CopySendError::NoInput(failure))))
            == CopyState::Finished(Err(failure)),
        ({
            let cut = CopyEvent::Sent(Err(CopySendError::MayHaveCopied(failure)));
            let seen = CopyEvent::Settled { copy: Some(copy), actual, current };
            let waiting = copy_next(run, cut);
            &&& !(waiting is Finished)
            &&& copy_event_fits(waiting, seen)
            &&& copy_next(CopyRun { state: waiting, ..run }, seen) == CopyState::Finished(
                Err(failure),
            )
            &&& guard_next(guard_next(run.guard, cut), seen).restores(copy)
        }),
{
}

// What the operations do.

/// A wait is at most ten milliseconds and never passes the deadline; there is
/// one exactly until then.
pub proof fn lemma_waits_end_at_the_deadline(now: u64, deadline: u64, wait: Option<u64>)
    requires
        call_ensures(next_wait, (now, deadline), wait),
    ensures
        wait is Some <==> now <= deadline,
        wait matches Some(pause) ==> pause <= 10_000_000 && now + pause <= deadline && (pause
            == 10_000_000 || now + pause == deadline),
{
}

/// The caller waits in the same slices, until it is cancelled or the deadline
/// has passed.
pub proof fn lemma_the_answer_is_awaited_until_the_deadline(
    cancelled: bool,
    now: u64,
    deadline: u64,
    wait: Result<u64, ExtractionFailure>,
)
    requires
        call_ensures(response_wait, (cancelled, now, deadline), wait),
    ensures
        wait is Ok <==> !cancelled && now <= deadline,
        wait matches Ok(pause) ==> pause <= 10_000_000 && now + pause <= deadline,
        wait matches Err(failure) ==> failure == ExtractionFailure::Platform,
{
}

/// The window in front is known by its process and its root, itself where it
/// has no other.
pub proof fn lemma_the_front_window_is_the_source(
    front: isize,
    process: u32,
    root: isize,
    identity: SourceIdentity,
)
    requires
        call_ensures(foreground_source_identity, (front, process, root), identity),
    ensures
        front != 0 ==> identity.process_id == process,
        front != 0 && root != 0 ==> identity.root_window == root,
        front != 0 && root == 0 ==> identity.root_window == front,
        front == 0 ==> identity.process_id == 0 && identity.root_window == 0,
{
}

/// A change of the sequence number restarts the settling time; without one the
/// copy is done once that time has passed, and never before.
pub proof fn lemma_a_copy_settles_only_unchanged(
    settle: &mut CopySettle,
    observed: u32,
    now: u64,
    step: SettleStep,
)
    requires
        now <= old(settle).deadline,
        call_ensures(CopySettle::observe, (settle, observed, now), step),
    ensures
        step == SettleStep::Settled <==> observed == old(settle).current
            && now >= old(settle).stable_until,
        step == SettleStep::Again <==> observed != old(settle).current,
        step == SettleStep::Again ==> final(settle).current == observed
            && now <= final(settle).stable_until <= old(settle).deadline
            && (final(settle).stable_until == now + 20_000_000
            || final(settle).stable_until == old(settle).deadline),
        step != SettleStep::Again ==> *final(settle) == *old(settle),
        step matches SettleStep::Sleep(pause) ==> pause <= 10_000_000
            && now + pause <= old(settle).stable_until,
        final(settle).deadline == old(settle).deadline,
{
}

/// A copy was sent where all four events went in; with some of them a copy may
/// have been made, with none it was not.
pub proof fn lemma_what_was_sent(sent: usize, outcome: Result<(), CopySendError>)
    requires
        call_ensures(sent_copy, (sent,), outcome),
    ensures
        outcome is Ok <==> sent == 4,
        sent == 0 ==> (outcome matches Err(error) && error is NoInput),
        sent != 0 && sent != 4 ==> (outcome matches Err(error) && error is MayHaveCopied),
{
}

/// An enumeration clones each plain format in turn and is complete only where
/// it ended without an error and in time.
pub proof fn lemma_a_snapshot_is_complete_or_fails(
    progress: SnapshotProgress,
    in_time: bool,
    next: u32,
    last_error: u32,
    step: SnapshotStep,
)
    requires
        call_ensures(SnapshotProgress::enumerated, (&progress, in_time, next, last_error), step),
    ensures
        step == SnapshotStep::Complete <==> in_time && next == 0 && last_error == 0,
        step matches SnapshotStep::Clone(format) ==> in_time && format == next && next != 0
            && !is_special_format(next),
        in_time && next != 0 && !is_special_format(next) ==> step == SnapshotStep::Clone(next),
        step matches SnapshotStep::Fail(failure) ==> failure == SnapshotFailure::Unsafe,
{
}

/// A snapshot stands only for a clipboard that did not change while it was
/// taken, and is tried again only where it did change and time is left.
pub proof fn lemma_a_changed_clipboard_is_read_again(
    progress: SnapshotProgress,
    in_time: bool,
    signals: ClipboardSignals,
    taken: Result<ClipboardSignals, SnapshotFailure>,
    failure: SnapshotFailure,
    now: u64,
    deadline: u64,
    wait: Result<u64, ExtractionFailure>,
)
    requires
        call_ensures(SnapshotProgress::finish, (&progress, in_time, signals), taken),
        call_ensures(snapshot_retry, (failure, now, deadline), wait),
    ensures
        taken is Ok <==> in_time && signals.sequence == progress.before,
        taken matches Ok(found) ==> found == signals,
        in_time && signals.sequence != progress.before ==> taken == Err::<ClipboardSignals, _>(
            SnapshotFailure::Changed,
        ),
        wait is Ok <==> failure == SnapshotFailure::Changed && now <= deadline,
        wait matches Ok(pause) ==> pause <= 10_000_000 && now + pause <= deadline,
{
}

/// Only plain text is read: a clipboard without it is empty, one that cannot be
/// opened or locked is a failure.
pub proof fn lemma_a_clipboard_without_text_is_empty(
    step: ReadStep,
    failure: ExtractionFailure,
    bytes: usize,
    units: Result<usize, ExtractionFailure>,
)
    requires
        call_ensures(read_failure, (step,), failure),
        call_ensures(readable_units, (bytes,), units),
    ensures
        failure == ExtractionFailure::EmptyRange <==> step == ReadStep::FindFormat || step
            == ReadStep::GetData,
        failure == ExtractionFailure::Platform <==> step == ReadStep::Open || step
            == ReadStep::Lock,
        units is Err <==> bytes < 2,
        units matches Ok(count) ==> count <= 1_000_000 && 2 * count <= bytes && (count
            == 1_000_000 || bytes < 2 * count + 2),
{
}

/// Text that was put on the clipboard with a closing zero is read back, and
/// what stands behind the zero is not read.
pub proof fn lemma_copied_text_is_read_back(
    units: &[u16],
    copied: Seq<char>,
    behind: Seq<u16>,
    text: Result<String, ExtractionFailure>,
)
    requires
        !copied.contains('\0'),
        units@ == crate::utf16::encode_utf16(copied).push(0) + behind || units@
            == crate::utf16::encode_utf16(copied),
        call_ensures(clipboard_text, (units,), text),
    ensures
        text matches Ok(read) && read@ == copied,
{
    let wanted = crate::utf16::encode_utf16(copied);
    crate::utf16::lemma_decode_inverts_encode(copied);
    lemma_text_ends_at_the_first_zero(units@);
    lemma_no_zero_unit(copied);
    let n = terminated_len(units@) as int;
    assert(units@.take(wanted.len() as int) =~= wanted);
    assert forall|i: int| 0 <= i < wanted.len() implies units@[i] == wanted[i] by {
        assert(units@.take(wanted.len() as int)[i] == wanted[i]);
    }
    if n < wanted.len() {
        assert(wanted[n] == 0);
    } else if n > wanted.len() {
        assert(units@[wanted.len() as int] == 0);
    }
    assert(units@.take(n) =~= wanted);
}

proof fn lemma_no_zero_unit(text: Seq<char>)
    requires
        !text.contains('\0'),
    ensures
        forall|i: int| 0 <= i < crate::utf16::encode_utf16(text).len() ==> #[trigger]
            crate::utf16::encode_utf16(text)[i] != 0,
    decreases text.len(),
{
    if text.len() > 0 {
        let rest = text.skip(1);
        assert(!rest.contains('\0')) by {
            if rest.contains('\0') {
                let k = choose|k: int| 0 <= k < rest.len() && rest[k] == '\0';
                assert(text[k + 1] == '\0');
            }
        }
        lemma_no_zero_unit(rest);
        let head = crate::utf16::units_of(text[0]);
        let tail = crate::utf16::encode_utf16(rest);
        assert(text[0] != '\0');
        crate::utf16::lemma_units_carry_the_code_point(text[0]);
        assert forall|i: int| 0 <= i < crate::utf16::encode_utf16(text).len() implies #[trigger]
        crate::utf16::encode_utf16(text)[i] != 0 by {
            if i >= head.len() {
                assert(crate::utf16::encode_utf16(text)[i] == tail[i - head.len()]);
            }
        }
    }
}

/// The clipboard is put back in this order: an owner, opening, one more
/// comparison, emptying, and only then the formats. Whatever fails ends it.
pub proof fn lemma_the_clipboard_is_put_back_in_order(
    opened: RestoreStep,
    compared: RestoreStep,
    emptied: RestoreStep,
    transferred: RestoreStep,
    done: RestoreStep,
    step: RestoreStep,
    failed: RestoreStep,
)
    requires
        call_ensures(restore_next, (RestoreStep::CreateOwner, true), opened),
        call_ensures(restore_next, (opened, true), compared),
        call_ensures(restore_next, (compared, true), emptied),
        call_ensures(restore_next, (emptied, true), transferred),
        call_ensures(restore_next, (transferred, true), done),
        call_ensures(restore_next, (step, false), failed),
    ensures
        opened == RestoreStep::Open,
        compared == RestoreStep::Revalidate,
        emptied == RestoreStep::Empty,
        transferred == RestoreStep::Transfer,
        done == RestoreStep::Done,
        failed == RestoreStep::Done,
{
}

/// A retry needs the same source and an untouched clipboard.
pub proof fn lemma_a_retry_needs_an_untouched_clipboard(
    expected: SourceIdentity,
    actual: SourceIdentity,
    original: ClipboardSignals,
    current: ClipboardSignals,
    allowed: bool,
)
    requires
        call_ensures(copy_retry_allowed, (expected, actual, original, current), allowed),
    ensures
        original.sequence != current.sequence || original.owner != current.owner ==> !allowed,
        expected == actual && original == current ==> allowed,
        expected.root_window != 0 && actual.root_window != expected.root_window ==> !allowed,
{
}

/// Only a hover never copies.
pub proof fn lemma_a_hover_never_copies(trigger: TriggerKind, allowed: bool)
    requires
        call_ensures(clipboard_fallback_allowed, (trigger,), allowed),
    ensures
        !allowed <==> trigger == TriggerKind::Hover,
{
}

/// The first attempt needs nothing of the clipboard, the second that it is as
/// it was cloned.
pub proof fn lemma_what_an_attempt_needs(
    expected: SourceIdentity,
    original: ClipboardSignals,
    run: CopyRun,
    later: CopyRun,
    first: Option<ClipboardSignals>,
    second: Option<ClipboardSignals>,
)
    requires
        call_ensures(CopyRun::begin, (expected, original), run),
        later == (CopyRun { state: CopyState::Send { second: true }, ..run }),
        call_ensures(CopyRun::unchanged_since, (&run,), first),
        call_ensures(CopyRun::unchanged_since, (&later,), second),
    ensures
        run.state == (CopyState::Send { second: false }),
        run.expected == expected,
        run.guard.original == original && run.guard.copy is None,
        first is None,
        second == Some(original),
{
}

/// Cloning goes on behind the last format that was cloned, and adds its bytes.
pub proof fn lemma_cloning_goes_on_behind_the_last(
    progress: &mut SnapshotProgress,
    format: u32,
    size: usize,
    duplicated: bool,
    outcome: Result<(), SnapshotFailure>,
)
    requires
        call_ensures(SnapshotProgress::cloned, (progress, format, size, duplicated), outcome),
    ensures
        outcome is Ok <==> duplicated,
        duplicated ==> final(progress).formats@.len() == old(progress).formats@.len() + 1
            && final(progress).formats@.last() == format
            && final(progress).total_bytes == old(progress).total_bytes
            + size && final(progress).formats@.drop_last() == old(progress).formats@,
        !duplicated ==> final(progress).formats@ == old(progress).formats@
            && final(progress).total_bytes == old(progress).total_bytes,
{
}

/// The keys that are injected are Control and C and nothing else; after a copy
/// that was cut short no key stays down.
pub proof fn lemma_the_injected_keys_leave_none_down(
    sent: usize,
    inputs: Vec<KeyEvent>,
    releases: Vec<KeyEvent>,
)
    requires
        sent <= 4,
        call_ensures(copy_inputs, (), inputs),
        call_ensures(release_partial_copy, (sent,), releases),
    ensures
        inputs@.len() == 4,
        keys_down(inputs@.take(2)) == set![0xa2u16, 0x43u16],
        keys_down(inputs@.take(sent as int) + releases@) == Set::<u16>::empty(),
        sent == 0 || sent == 4 ==> releases@.len() == 0,
{
    lemma_a_copy_presses_control_and_c();
    lemma_partial_copy_leaves_no_key_down(sent as int);
}

/// A copy is injected for the expected source alone; a format is cloned as long
/// as the snapshot has room; and the clipboard is put back only while it holds
/// the copy.
pub proof fn lemma_the_checks_before_touching_the_clipboard(
    expected: SourceIdentity,
    since: Option<ClipboardSignals>,
    check: CopyCheck,
    checked: Result<(), CopySendError>,
    progress: SnapshotProgress,
    size: Option<usize>,
    admitted: Result<(), SnapshotFailure>,
    guard: RestoreGuard,
    current: ClipboardSignals,
    restore: bool,
)
    requires
        call_ensures(check_copy, (expected, since, check), checked),
        call_ensures(SnapshotProgress::admits, (&progress, size), admitted),
        call_ensures(RestoreGuard::restore_now, (&guard, current), restore),
    ensures
        checked is Ok ==> check.modifiers_released,
        checked is Ok && expected.root_window != 0 ==> check.actual.root_window
            == expected.root_window,
        checked is Ok ==> (since matches Some(signals) ==> signals == check.signals),
        check.modifiers_released && check.actual == expected && since is None ==> checked is Ok,
        checked matches Err(error) ==> error is NoInput,
        size is None ==> admitted is Err,
        admitted is Ok ==> progress.formats@.len() < 128,
        size matches Some(bytes) ==> (progress.formats@.len() < 128 && 1 <= bytes
            && progress.total_bytes + bytes <= 32 * 1024 * 1024 <==> admitted is Ok),
        restore ==> (guard.copy matches Some(copy) && copy == current && copy.sequence
            != guard.original.sequence),
        guard.copy matches Some(copy) ==> (copy == current && copy.sequence
            != guard.original.sequence ==> restore),
{
}

} // verus!
