//! Recording completed translations in batches.
//!
//! The message loop queues entries; one writer drains the queue in batches and
//! acknowledges flushes with the outcome of the batch that they arrived in.

use crate::extraction::ExtractionSource;
use std::collections::VecDeque;
use vstd::prelude::*;

verus! {

/// How many entries are written at once.
pub const WRITE_BATCH_CAPACITY: usize = 256;

/// A completed translation.
#[derive(Debug, PartialEq, Eq)]
pub struct CompletedEntry {
    pub created_at_utc: String,
    pub source: ExtractionSource,
    pub target: String,
    pub context: Option<String>,
    pub output: String,
    pub prompt_id: String,
    pub model: String,
    pub served_from_cache: bool,
}

/// What waits in the queue: an entry, or a flush with the number under which
/// it is acknowledged.
#[derive(Debug, PartialEq, Eq)]
pub enum HistoryMessage {
    Entry(CompletedEntry),
    Flush(u64),
}

/// The entries among `messages`, in order.
pub open spec fn entries_of(messages: Seq<HistoryMessage>) -> Seq<CompletedEntry>
    decreases messages.len(),
{
    if messages.len() == 0 {
        Seq::empty()
    } else {
        match messages.last() {
            HistoryMessage::Entry(entry) => entries_of(messages.drop_last()).push(entry),
            HistoryMessage::Flush(_) => entries_of(messages.drop_last()),
        }
    }
}

/// The flushes among `messages`, in order.
pub open spec fn flushes_of(messages: Seq<HistoryMessage>) -> Seq<u64>
    decreases messages.len(),
{
    if messages.len() == 0 {
        Seq::empty()
    } else {
        match messages.last() {
            HistoryMessage::Entry(_) => flushes_of(messages.drop_last()),
            HistoryMessage::Flush(number) => flushes_of(messages.drop_last()).push(number),
        }
    }
}

/// Entries to write together and the flushes to acknowledge after that.
#[derive(Debug, PartialEq, Eq)]
pub struct HistoryBatch {
    pub entries: Vec<CompletedEntry>,
    pub flushes: Vec<u64>,
}

/// `count` is where a batch ends: at the end of the queue, or behind the entry
/// that fills it.
pub open spec fn is_batch_end(queue: Seq<HistoryMessage>, count: int) -> bool {
    &&& 0 <= count <= queue.len()
    &&& entries_of(queue.take(count)).len() <= WRITE_BATCH_CAPACITY
    &&& count == queue.len() || entries_of(queue.take(count)).len() == WRITE_BATCH_CAPACITY
    &&& count > 0 && entries_of(queue.take(count)).len() == WRITE_BATCH_CAPACITY
        ==> queue[count - 1] is Entry
}

/// Takes the next batch from the front of the queue; there is none while it is
/// empty.
pub fn next_batch(queue: &mut VecDeque<HistoryMessage>) -> (batch: Option<HistoryBatch>)
    ensures
        batch is None <==> old(queue)@.len() == 0,
        match batch {
            None => final(queue)@ == old(queue)@,
            Some(batch) => exists|count: int| #[trigger]
                is_batch_end(old(queue)@, count) && count > 0 && batch.entries@ == entries_of(
                    old(queue)@.take(count),
                ) && batch.flushes@ == flushes_of(old(queue)@.take(count)) && final(queue)@
                    == old(queue)@.skip(count),
        },
{
    if queue.len() == 0 {
        return None;
    }
    let ghost all = queue@;
    let mut entries: Vec<CompletedEntry> = Vec::new();
    let mut flushes: Vec<u64> = Vec::new();
    let ghost mut count: int = 0;
    proof {
        assert(all.take(0) =~= Seq::empty());
        assert(all.skip(0) =~= all);
    }
    while queue.len() > 0 && entries.len() < WRITE_BATCH_CAPACITY
        invariant
            0 <= count <= all.len(),
            all.len() > 0,
            queue@ == all.skip(count),
            entries@ == entries_of(all.take(count)),
            flushes@ == flushes_of(all.take(count)),
            entries@.len() <= WRITE_BATCH_CAPACITY,
            count > 0 && entries@.len() == WRITE_BATCH_CAPACITY ==> all[count - 1] is Entry,
        decreases queue@.len(),
    {
        proof {
            assert(all.take(count + 1).drop_last() =~= all.take(count));
            assert(all.take(count + 1).last() == all[count]);
            assert(queue@[0] == all[count]);
            assert(all.skip(count).subrange(1, all.skip(count).len() as int) =~= all.skip(
                count + 1,
            ));
        }
        match queue.pop_front() {
            Some(HistoryMessage::Entry(entry)) => {
                entries.push(entry);
            },
            Some(HistoryMessage::Flush(number)) => {
                flushes.push(number);
            },
            None => {},
        }
        proof {
            count = count + 1;
        }
    }
    proof {
        assert(is_batch_end(all, count));
    }
    Some(HistoryBatch { entries, flushes })
}

/// A batch counts as written where it has no entries or the store took them;
/// every flush in it is acknowledged with this.
pub fn batch_persisted(batch: &HistoryBatch, inserted: bool) -> (persisted: bool)
    ensures
        persisted == (batch.entries@.len() == 0 || inserted),
{
    batch.entries.len() == 0 || inserted
}

/// Draining loses nothing and keeps the order: the entries of a batch and those
/// that stay behind are together the entries that were queued, and so are the
/// flushes.
pub proof fn lemma_batches_are_lossless(queue: Seq<HistoryMessage>, count: int)
    requires
        0 <= count <= queue.len(),
    ensures
        entries_of(queue) == entries_of(queue.take(count)) + entries_of(queue.skip(count)),
        flushes_of(queue) == flushes_of(queue.take(count)) + flushes_of(queue.skip(count)),
    decreases queue.len(),
{
    if count == queue.len() {
        assert(queue.take(count) =~= queue);
        assert(queue.skip(count) =~= Seq::empty());
        assert(entries_of(queue) =~= entries_of(queue) + entries_of(queue.skip(count)));
        assert(flushes_of(queue) =~= flushes_of(queue) + flushes_of(queue.skip(count)));
    } else {
        let shorter = queue.drop_last();
        lemma_batches_are_lossless(shorter, count);
        assert(shorter.take(count) =~= queue.take(count));
        assert(shorter.skip(count) =~= queue.skip(count).drop_last());
        assert(queue.skip(count).last() == queue.last());
        assert(entries_of(queue) =~= entries_of(queue.take(count)) + entries_of(
            queue.skip(count),
        ));
        assert(flushes_of(queue) =~= flushes_of(queue.take(count)) + flushes_of(
            queue.skip(count),
        ));
    }
}

/// A batch takes from the front of the queue, at least one message and at most
/// 256 entries, in order; what it takes and what is left make up the queue, so
/// that nothing is lost or written twice.
pub proof fn lemma_a_batch_takes_from_the_front(
    queue: &mut VecDeque<HistoryMessage>,
    batch: Option<HistoryBatch>,
)
    requires
        call_ensures(next_batch, (queue,), batch),
    ensures
        old(queue)@.len() > 0 <==> batch is Some,
        batch matches Some(taken) ==> {
            &&& taken.entries@ + entries_of(final(queue)@) == entries_of(old(queue)@)
            &&& taken.flushes@ + flushes_of(final(queue)@) == flushes_of(old(queue)@)
            &&& taken.entries@.len() <= 256
            &&& final(queue)@.len() < old(queue)@.len()
            &&& final(queue)@.len() > 0 ==> taken.entries@.len() == 256
        },
        batch is None ==> final(queue)@ == old(queue)@,
{
    if let Some(taken) = batch {
        let count = choose|count: int| #[trigger]
            is_batch_end(old(queue)@, count) && count > 0 && taken.entries@ == entries_of(
                old(queue)@.take(count),
            ) && taken.flushes@ == flushes_of(old(queue)@.take(count)) && final(queue)@
                == old(queue)@.skip(count);
        lemma_batches_are_lossless(old(queue)@, count);
    }
}

/// An entry at the end of the queue is the last entry, a flush the last flush,
/// and neither is taken for the other.
pub proof fn lemma_messages_keep_their_order(
    queue: Seq<HistoryMessage>,
    entry: CompletedEntry,
    number: u64,
)
    ensures
        entries_of(queue.push(HistoryMessage::Entry(entry))) == entries_of(queue).push(entry),
        flushes_of(queue.push(HistoryMessage::Entry(entry))) == flushes_of(queue),
        flushes_of(queue.push(HistoryMessage::Flush(number))) == flushes_of(queue).push(number),
        entries_of(queue.push(HistoryMessage::Flush(number))) == entries_of(queue),
        entries_of(Seq::empty()).len() == 0,
        flushes_of(Seq::empty()).len() == 0,
{
    assert(queue.push(HistoryMessage::Entry(entry)).drop_last() =~= queue);
    assert(queue.push(HistoryMessage::Flush(number)).drop_last() =~= queue);
}

/// A flush is answered well where everything before it was written, also where
/// there was nothing to write.
pub proof fn lemma_a_flush_is_answered_truly(batch: HistoryBatch, inserted: bool, persisted: bool)
    requires
        call_ensures(batch_persisted, (&batch, inserted), persisted),
    ensures
        inserted ==> persisted,
        batch.entries@.len() == 0 ==> persisted,
        batch.entries@.len() > 0 && !inserted ==> !persisted,
{
}

} // verus!
