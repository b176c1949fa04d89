//! Watching the configuration file.
//!
//! The watcher keeps one directory read outstanding, looks for the file's name
//! in the notifications that arrive, and publishes a change only after the file
//! was loaded again.

use crate::text::{ascii_lower, same_ignoring_case};
use crate::utf16::{
    decode_utf16_lossy, encode_utf16, lemma_decode_inverts_encode,
    lemma_lossy_decoding_is_exact_on_valid_units, text_of_utf16_lossy,
};
use crate::win32::{
    hresult_from_win32, result_code, ERROR_IO_INCOMPLETE, ERROR_IO_PENDING, WAIT_TIMEOUT,
};
use vstd::prelude::*;

verus! {

/// Wakes the resident window when a change was published.
pub const CONFIG_RELOAD_MESSAGE: u32 = 0x8020;

/// How long a change settles before the file is loaded, in milliseconds.
pub const RELOAD_DEBOUNCE_MS: u64 = 30;

/// How long one wait for notifications lasts, in milliseconds.
pub const WATCH_WAIT_MS: u32 = 500;

pub const WATCH_BUFFER_BYTES: usize = 16_384;

pub const FILE_ACTION_ADDED: u32 = 1;

pub const FILE_ACTION_REMOVED: u32 = 2;

pub const FILE_ACTION_MODIFIED: u32 = 3;

pub const FILE_ACTION_RENAMED_NEW_NAME: u32 = 5;

/// The bytes before the name of a notification record: the distance to the next
/// record, the action and the length of the name, four bytes each.
pub const RECORD_HEADER_BYTES: usize = 12;

/// The little-endian number in the four bytes at `at`.
pub open spec fn le_u32(bytes: Seq<u8>, at: int) -> int {
    bytes[at] + bytes[at + 1] * 0x100 + bytes[at + 2] * 0x1_0000 + bytes[at + 3] * 0x100_0000
}

/// The little-endian units in the `2 * count` bytes at `at`.
pub open spec fn le_units(bytes: Seq<u8>, at: int, count: int) -> Seq<u16> {
    Seq::new(
        count as nat,
        |i: int| (bytes[at + 2 * i] + bytes[at + 2 * i + 1] * 0x100) as u16,
    )
}

pub open spec fn is_relevant_action(action: int) -> bool {
    action == FILE_ACTION_ADDED || action == FILE_ACTION_MODIFIED || action == FILE_ACTION_REMOVED
        || action == FILE_ACTION_RENAMED_NEW_NAME
}

/// A whole record, name included, stands at `at`.
pub open spec fn record_at(bytes: Seq<u8>, at: int) -> bool {
    let header = RECORD_HEADER_BYTES as int;
    at + header <= bytes.len() && at + header + le_u32(bytes, at + 8) <= bytes.len() && le_u32(
        bytes,
        at + 8,
    ) % 2 == 0
}

/// The record at `at` reports a relevant change of the file `wanted`; its name
/// may differ in the case of ASCII letters.
pub open spec fn record_reports(bytes: Seq<u8>, at: int, wanted: Seq<char>) -> bool {
    let name = decode_utf16_lossy(
        le_units(bytes, at + RECORD_HEADER_BYTES, le_u32(bytes, at + 8) / 2),
    );
    ascii_lower(name) == ascii_lower(wanted) && is_relevant_action(le_u32(bytes, at + 4))
}

/// A record of the chain that starts at `at` reports a change of `wanted`. The
/// chain ends at a record that is not whole or that has no room before the
/// next one.
pub open spec fn chain_reports(bytes: Seq<u8>, at: int, wanted: Seq<char>) -> bool
    decreases
            if at <= bytes.len() {
                bytes.len() - at + 1
            } else {
                0
            },
{
    if at < 0 || !record_at(bytes, at) {
        false
    } else if record_reports(bytes, at, wanted) {
        true
    } else if le_u32(bytes, at) < RECORD_HEADER_BYTES {
        false
    } else {
        chain_reports(bytes, at + le_u32(bytes, at), wanted)
    }
}

fn read_u32(bytes: &[u8], at: usize) -> (value: u32)
    requires
        at + 4 <= bytes@.len(),
    ensures
        value == le_u32(bytes@, at as int),
{
    bytes[at] as u32 + bytes[at + 1] as u32 * 0x100 + bytes[at + 2] as u32 * 0x1_0000 + bytes[at
        + 3] as u32 * 0x100_0000
}

fn read_units(bytes: &[u8], at: usize, count: usize) -> (units: Vec<u16>)
    requires
        at + 2 * count <= bytes@.len(),
    ensures
        units@ == le_units(bytes@, at as int, count as int),
{
    let len: usize = bytes.len();
    let mut units: Vec<u16> = Vec::new();
    let mut i: usize = 0;
    while i < count
        invariant
            i <= count,
            at + 2 * count <= bytes@.len() == len,
            units@ == le_units(bytes@, at as int, i as int),
        decreases count - i,
    {
        units.push((bytes[at + 2 * i] as u32 + bytes[at + 2 * i + 1] as u32 * 0x100) as u16);
        i = i + 1;
        proof {
            assert(units@ =~= le_units(bytes@, at as int, i as int));
        }
    }
    units
}

/// The notifications in `buffer` report a change of the file `wanted`.
pub fn notification_mentions_file(buffer: &[u8], wanted: &str) -> (mentions: bool)
    ensures
        mentions == chain_reports(buffer@, 0, wanted@),
{
    let mut offset: usize = 0;
    while offset <= buffer.len() && buffer.len() - offset >= RECORD_HEADER_BYTES
        invariant
            chain_reports(buffer@, 0, wanted@) == chain_reports(buffer@, offset as int, wanted@),
        decreases buffer@.len() - offset,
    {
        let next: u32 = read_u32(buffer, offset);
        let action: u32 = read_u32(buffer, offset + 4);
        let name_bytes: u32 = read_u32(buffer, offset + 8);
        let name_start: usize = offset + RECORD_HEADER_BYTES;
        if name_bytes as u64 > (buffer.len() - name_start) as u64 || name_bytes % 2 != 0 {
            return false;
        }
        let units: Vec<u16> = read_units(buffer, name_start, name_bytes as usize / 2);
        let name: String = text_of_utf16_lossy(units.as_slice());
        let relevant: bool = action == FILE_ACTION_ADDED || action == FILE_ACTION_MODIFIED || action
            == FILE_ACTION_REMOVED || action == FILE_ACTION_RENAMED_NEW_NAME;
        if same_ignoring_case(name.as_str(), wanted) && relevant {
            return true;
        }
        if (next as u64) < RECORD_HEADER_BYTES as u64 {
            return false;
        }
        if next as u64 > (buffer.len() - offset) as u64 {
            proof {
                assert(!record_at(buffer@, offset + next));
                assert(!chain_reports(buffer@, offset + next, wanted@));
            }
            return false;
        }
        offset = offset + next as usize;
    }
    false
}

/// The outside operation that the watcher performs next.
#[derive(Clone, Copy, Debug, PartialEq, Eq, Structural)]
pub enum WatchState {
    /// Ask whether the watcher should stop.
    PollStop,
    /// Start a directory read.
    IssueRead,
    /// Wait for the read, for a bounded time.
    AwaitRead,
    /// Ask whether the watcher should stop while the read is outstanding.
    PollStopWhileReading,
    /// Cancel the read.
    CancelRead,
    /// Wait until the cancelled read is finished with its buffer.
    AwaitCancelled,
    /// Let the change settle, load the file, publish it and wake the window.
    Publish,
    /// Close the directory and end.
    Close,
}

/// What an outside operation reported.
#[derive(Clone, Copy, Debug, PartialEq, Eq)]
pub enum WatchEvent {
    StopRequested(bool),
    /// The operation ended, with a result code where it failed.
    Io(Result<(), i32>),
    /// The read ended and its buffer does or does not mention the file.
    ReadCompleted { mentions_file: bool },
    /// The change did or did not reach the window.
    Published(bool),
}

/// The wait ran out of time while the operation goes on.
pub open spec fn is_still_waiting(code: i32) -> bool {
    code == result_code(ERROR_IO_INCOMPLETE) || code == result_code(WAIT_TIMEOUT)
}

fn still_waiting(code: i32) -> (waiting: bool)
    ensures
        waiting == is_still_waiting(code),
{
    code == hresult_from_win32(ERROR_IO_INCOMPLETE) || code == hresult_from_win32(WAIT_TIMEOUT)
}

/// A directory read may still write to the buffer.
pub open spec fn read_outstanding(state: WatchState) -> bool {
    state == WatchState::AwaitRead || state == WatchState::PollStopWhileReading || state
        == WatchState::CancelRead || state == WatchState::AwaitCancelled
}

/// The event answers the operation of the state.
pub open spec fn event_fits(state: WatchState, event: WatchEvent) -> bool {
    match state {
        WatchState::PollStop | WatchState::PollStopWhileReading => event is StopRequested,
        WatchState::IssueRead | WatchState::CancelRead | WatchState::AwaitCancelled => event is Io,
        WatchState::AwaitRead => event is ReadCompleted || event matches WatchEvent::Io(Err(_)),
        WatchState::Publish => event is Published,
        WatchState::Close => false,
    }
}

/// Where the watcher goes after `event`.
pub open spec fn watch_next(state: WatchState, event: WatchEvent) -> WatchState {
    match (state, event) {
        (WatchState::PollStop, WatchEvent::StopRequested(stop)) => if stop {
            WatchState::Close
        } else {
            WatchState::IssueRead
        },
        (WatchState::IssueRead, WatchEvent::Io(Ok(()))) => WatchState::AwaitRead,
        (WatchState::IssueRead, WatchEvent::Io(Err(code))) => if code == result_code(
            ERROR_IO_PENDING,
        ) {
            WatchState::AwaitRead
        } else {
            WatchState::Close
        },
        (WatchState::AwaitRead, WatchEvent::ReadCompleted { mentions_file }) => if mentions_file {
            WatchState::Publish
        } else {
            WatchState::PollStop
        },
        (WatchState::AwaitRead, WatchEvent::Io(Err(code))) => if is_still_waiting(code) {
            WatchState::PollStopWhileReading
        } else {
            WatchState::CancelRead
        },
        (WatchState::PollStopWhileReading, WatchEvent::StopRequested(stop)) => if stop {
            WatchState::CancelRead
        } else {
            WatchState::AwaitRead
        },
        (WatchState::CancelRead, _) => WatchState::AwaitCancelled,
        (WatchState::AwaitCancelled, WatchEvent::Io(Err(code))) => if is_still_waiting(code) {
            WatchState::AwaitCancelled
        } else {
            WatchState::PollStop
        },
        (WatchState::AwaitCancelled, _) => WatchState::PollStop,
        (WatchState::Publish, WatchEvent::Published(sent)) => if sent {
            WatchState::PollStop
        } else {
            WatchState::Close
        },
        _ => WatchState::Close,
    }
}

/// Advances the watcher past the operation of `state`.
pub fn watch_step(state: WatchState, event: WatchEvent) -> (next: WatchState)
    requires
        event_fits(state, event),
    ensures
        next == watch_next(state, event),
{
    match state {
        WatchState::PollStop => match event {
            WatchEvent::StopRequested(true) => WatchState::Close,
            _ => WatchState::IssueRead,
        },
        WatchState::IssueRead => match event {
            WatchEvent::Io(Err(code)) => if code == hresult_from_win32(ERROR_IO_PENDING) {
                WatchState::AwaitRead
            } else {
                WatchState::Close
            },
            _ => WatchState::AwaitRead,
        },
        WatchState::AwaitRead => match event {
            WatchEvent::ReadCompleted { mentions_file } => if mentions_file {
                WatchState::Publish
            } else {
                WatchState::PollStop
            },
            WatchEvent::Io(Err(code)) => if still_waiting(code) {
                WatchState::PollStopWhileReading
            } else {
                WatchState::CancelRead
            },
            _ => WatchState::Close,
        },
        WatchState::PollStopWhileReading => match event {
            WatchEvent::StopRequested(true) => WatchState::CancelRead,
            _ => WatchState::AwaitRead,
        },
        WatchState::CancelRead => WatchState::AwaitCancelled,
        WatchState::AwaitCancelled => match event {
            WatchEvent::Io(Err(code)) => if still_waiting(code) {
                WatchState::AwaitCancelled
            } else {
                WatchState::PollStop
            },
            _ => WatchState::PollStop,
        },
        WatchState::Publish => match event {
            WatchEvent::Published(true) => WatchState::PollStop,
            _ => WatchState::Close,
        },
        WatchState::Close => WatchState::Close,
    }
}

/// A read is never issued, and the directory never closed, while an earlier
/// read may still write to the buffer: an outstanding read ends only by
/// completing or by being cancelled and waited for.
pub proof fn lemma_one_read_is_outstanding(state: WatchState, event: WatchEvent)
    requires
        event_fits(state, event),
    ensures
        read_outstanding(state) && !read_outstanding(watch_next(state, event)) ==> event
            is ReadCompleted || state == WatchState::AwaitCancelled,
        watch_next(state, event) == WatchState::IssueRead ==> state == WatchState::PollStop,
        watch_next(state, event) == WatchState::Close ==> !read_outstanding(state),
{
}

/// A time-out keeps the same read outstanding, and only a requested stop or a
/// failure cancels it.
pub proof fn lemma_timeout_keeps_the_read(code: i32)
    requires
        is_still_waiting(code),
    ensures
        watch_next(WatchState::AwaitRead, WatchEvent::Io(Err(code)))
            == WatchState::PollStopWhileReading,
        watch_next(WatchState::PollStopWhileReading, WatchEvent::StopRequested(false))
            == WatchState::AwaitRead,
{
}

/// The part of the buffer that a read filled.
pub fn filled_bytes(transferred: u32, buffer_len: usize) -> (filled: usize)
    ensures
        filled == if transferred as int <= buffer_len {
            transferred as int
        } else {
            buffer_len as int
        },
{
    if transferred as u64 <= buffer_len as u64 {
        transferred as usize
    } else {
        buffer_len
    }
}

// What the rules above are for.

/// `bytes` hold, at `at`, a record of an `action` on the file `name`, whose
/// successor is `next` bytes further on.
pub open spec fn writes_record(
    bytes: Seq<u8>,
    at: int,
    next: u8,
    action: u8,
    name: Seq<char>,
) -> bool {
    let units = encode_utf16(name);
    &&& 0 <= at && at + 12 + 2 * units.len() <= bytes.len()
    &&& units.len() < 128
    &&& bytes.subrange(at, at + 12) == seq![
        next,
        0u8,
        0u8,
        0u8,
        action,
        0u8,
        0u8,
        0u8,
        (2 * units.len()) as u8,
        0u8,
        0u8,
        0u8,
    ]
    &&& forall|i: int|
        0 <= i < units.len() ==> bytes[at + 12 + 2 * i] == #[trigger] units[i] % 256 && bytes[at
            + 12 + 2 * i + 1] == units[i] / 256
}

/// A record is read as it was written: a change of the file itself is
/// reported where it was added, removed, modified or renamed to, and no other
/// action and no other name is.
pub proof fn lemma_a_record_reports_its_own_file(
    bytes: Seq<u8>,
    at: int,
    next: u8,
    action: u8,
    name: Seq<char>,
    wanted: Seq<char>,
)
    requires
        writes_record(bytes, at, next, action, name),
    ensures
        name == wanted && (action == 1 || action == 2 || action == 3 || action == 5)
            ==> chain_reports(bytes, at, wanted),
        action != 1 && action != 2 && action != 3 && action != 5 ==> !record_reports(
            bytes,
            at,
            wanted,
        ),
        name.len() != wanted.len() ==> !record_reports(bytes, at, wanted),
        record_reports(bytes, at, wanted) ==> chain_reports(bytes, at, wanted),
{
    let units = encode_utf16(name);
    let head = bytes.subrange(at, at + 12);
    assert forall|k: int| 0 <= k < 12 implies head[k] == #[trigger] bytes[at + k] by {}
    assert(head[0] == bytes[at + 0]);
    assert(head[4] == bytes[at + 4] && head[5] == bytes[at + 5] && head[6] == bytes[at + 6]
        && head[7] == bytes[at + 7]);
    assert(head[8] == bytes[at + 8] && head[9] == bytes[at + 9] && head[10] == bytes[at + 10]
        && head[11] == bytes[at + 11]);
    assert(le_u32(bytes, at + 4) == action);
    assert(le_u32(bytes, at + 8) == 2 * units.len());
    let read = le_units(bytes, at + 12, units.len() as int);
    assert(read =~= units) by {
        assert forall|i: int| 0 <= i < units.len() implies read[i] == units[i] by {
            let unit = units[i];
            assert(bytes[at + 12 + 2 * i] == unit % 256);
            assert(bytes[at + 12 + 2 * i + 1] == unit / 256);
            assert(unit % 256 + (unit / 256) * 0x100 == unit);
        }
    }
    assert(le_u32(bytes, at + 8) / 2 == units.len());
    lemma_decode_inverts_encode(name);
    lemma_lossy_decoding_is_exact_on_valid_units(units);
    assert(record_at(bytes, at));
    if name.len() != wanted.len() {
        assert(ascii_lower(name).len() == name.len());
        assert(ascii_lower(wanted).len() == wanted.len());
    }
}

/// A record that does not report is passed over, and what follows it is looked
/// at; after a record without a successor nothing is.
pub proof fn lemma_the_chain_is_followed(
    bytes: Seq<u8>,
    at: int,
    next: u8,
    action: u8,
    name: Seq<char>,
    wanted: Seq<char>,
)
    requires
        writes_record(bytes, at, next, action, name),
        !record_reports(bytes, at, wanted),
    ensures
        next == 0 ==> !chain_reports(bytes, at, wanted),
        next >= 12 ==> chain_reports(bytes, at, wanted) == chain_reports(bytes, at + next, wanted),
{
    lemma_a_record_reports_its_own_file(bytes, at, next, action, name, wanted);
    let units = encode_utf16(name);
    let head = bytes.subrange(at, at + 12);
    assert(head[0] == bytes[at + 0] && head[1] == bytes[at + 1] && head[2] == bytes[at + 2]
        && head[3] == bytes[at + 3]);
    assert(head[8] == bytes[at + 8] && head[9] == bytes[at + 9] && head[10] == bytes[at + 10]
        && head[11] == bytes[at + 11]);
    assert(le_u32(bytes, at) == next);
    assert(le_u32(bytes, at + 8) == 2 * units.len());
    assert(record_at(bytes, at));
}

/// The watcher goes on as long as nobody stops it: it reads, publishes a
/// change of the file, and reads again. A stop, a read that cannot be issued
/// and a window that is gone end it.
pub proof fn lemma_the_watcher_goes_on(code: i32)
    ensures
        watch_next(WatchState::PollStop, WatchEvent::StopRequested(false)) == WatchState::IssueRead,
        watch_next(WatchState::IssueRead, WatchEvent::Io(Ok(()))) == WatchState::AwaitRead,
        watch_next(WatchState::IssueRead, WatchEvent::Io(Err((-2147023899int) as i32)))
            == WatchState::AwaitRead,
        watch_next(WatchState::AwaitRead, WatchEvent::ReadCompleted { mentions_file: true })
            == WatchState::Publish,
        watch_next(WatchState::AwaitRead, WatchEvent::ReadCompleted { mentions_file: false })
            == WatchState::PollStop,
        watch_next(WatchState::Publish, WatchEvent::Published(true)) == WatchState::PollStop,
        watch_next(WatchState::Publish, WatchEvent::Published(false)) == WatchState::Close,
        watch_next(WatchState::PollStop, WatchEvent::StopRequested(true)) == WatchState::Close,
        code != -2147023899 ==> watch_next(WatchState::IssueRead, WatchEvent::Io(Err(code)))
            == WatchState::Close,
{
}

/// A requested stop ends the watcher once the outstanding read is cancelled
/// and is finished with its buffer.
pub proof fn lemma_a_stop_cancels_the_read(cancel: WatchEvent, code: i32)
    requires
        event_fits(WatchState::CancelRead, cancel),
        code != -2147023900 && code != -2147024638,
    ensures
        ({
            let asked = watch_next(
                WatchState::PollStopWhileReading,
                WatchEvent::StopRequested(true),
            );
            let cancelled = watch_next(asked, cancel);
            let waiting = watch_next(cancelled, WatchEvent::Io(Err((-2147023900int) as i32)));
            let done = watch_next(waiting, WatchEvent::Io(Err(code)));
            &&& asked == WatchState::CancelRead
            &&& waiting == cancelled && read_outstanding(waiting)
            &&& !read_outstanding(done)
            &&& watch_next(done, WatchEvent::StopRequested(true)) == WatchState::Close
            &&& watch_next(waiting, WatchEvent::Io(Ok(()))) == done
        }),
        !is_still_waiting(code),
        is_still_waiting((-2147023900int) as i32),
        is_still_waiting((-2147024638int) as i32),
{
}

/// A read fills as many bytes as it says, but never more than there are.
pub proof fn lemma_a_read_fills_no_more_than_the_buffer(transferred: u32, len: usize, filled: usize)
    requires
        call_ensures(filled_bytes, (transferred, len), filled),
    ensures
        filled <= len,
        filled <= transferred,
        filled == len || filled == transferred,
{
}

/// A buffer with a record of the file's change mentions the file, and the
/// watcher moves by the steps of the model.
pub proof fn lemma_a_change_of_the_file_is_noticed(
    buffer: &[u8],
    next: u8,
    action: u8,
    name: &str,
    mentions: bool,
    state: WatchState,
    event: WatchEvent,
    following: WatchState,
)
    requires
        writes_record(buffer@, 0, next, action, name@),
        call_ensures(notification_mentions_file, (buffer, name), mentions),
        event_fits(state, event),
        call_ensures(watch_step, (state, event), following),
    ensures
        action == 1 || action == 2 || action == 3 || action == 5 ==> mentions,
        next == 0 && action != 1 && action != 2 && action != 3 && action != 5 ==> !mentions,
        following == watch_next(state, event),
{
    lemma_a_record_reports_its_own_file(buffer@, 0, next, action, name@, name@);
    if action != 1 && action != 2 && action != 3 && action != 5 {
        lemma_the_chain_is_followed(buffer@, 0, next, action, name@, name@);
    }
}

} // verus!
