//! Saves that wait for the thread that writes them, and what it reports.
use vstd::prelude::*;

use super::document::SessionDocument;

verus! {

/// How many saves and how many reports wait at most.
pub const CHANNEL_CAPACITY: usize = 8;

/// What the writing thread is told.
#[derive(Debug)]
pub enum PersistenceCommand {
    Save(SessionDocument),
    Shutdown,
}

/// What the writing thread reports.
#[derive(Debug)]
pub enum PersistenceEvent {
    /// A save, with the digest of what was written, by which a later look at
    /// the file tells this write from one of others.
    Saved(Option<u64>),
    Failed(String),
    Stopped,
}

/// The report of a save.
pub fn save_report(result: Result<u64, String>) -> (event: PersistenceEvent)
    ensures
        event == (match result {
            Ok(digest) => PersistenceEvent::Saved(Some(digest)),
            Err(message) => PersistenceEvent::Failed(message),
        }),
{
    match result {
        Ok(digest) => PersistenceEvent::Saved(Some(digest)),
        Err(message) => PersistenceEvent::Failed(message),
    }
}

/// The saves that wait, oldest first.
#[derive(Debug)]
pub struct SaveQueue {
    pub waiting: Vec<SessionDocument>,
    pub closing: bool,
}

impl SaveQueue {
    pub open spec fn wf(self) -> bool {
        self.waiting@.len() <= CHANNEL_CAPACITY
    }

    pub fn new() -> (queue: Self)
        ensures
            queue.wf(),
            queue.waiting@.len() == 0,
            !queue.closing,
    {
        SaveQueue { waiting: Vec::new(), closing: false }
    }

    /// The documents that wait after one more came: where there is no room the
    /// older ones are dropped, so the newest always waits.
    pub open spec fn with_newest(self, document: SessionDocument) -> Seq<SessionDocument> {
        if self.waiting@.len() < CHANNEL_CAPACITY {
            self.waiting@.push(document)
        } else {
            seq![document]
        }
    }

    /// Lets a document wait. It never blocks: where there is no room the older
    /// ones are dropped. A queue that closes takes nothing more.
    pub fn save(&mut self, document: SessionDocument) -> (taken: bool)
        requires
            old(self).wf(),
        ensures
            final(self).wf(),
            taken == !old(self).closing,
            final(self).closing == old(self).closing,
            final(self).waiting@ == (if taken {
                old(self).with_newest(document)
            } else {
                old(self).waiting@
            }),
    {
        if self.closing {
            return false;
        }
        if self.waiting.len() >= CHANNEL_CAPACITY {
            self.waiting = Vec::new();
        }
        self.waiting.push(document);
        assert(self.waiting@ =~= old(self).with_newest(document));
        true
    }

    /// Tells the writing thread to stop once everything is written.
    pub fn close(&mut self)
        ensures
            final(self).closing,
            final(self).waiting == old(self).waiting,
    {
        self.closing = true;
    }

    /// What the writing thread does next: the oldest document that waits, or
    /// the end where the queue closes; nothing where it has to wait.
    pub fn next(&mut self) -> (command: Option<PersistenceCommand>)
        requires
            old(self).wf(),
        ensures
            final(self).wf(),
            final(self).closing == old(self).closing,
            old(self).waiting@.len() > 0 ==> command == Some(
                PersistenceCommand::Save(old(self).waiting@[0]),
            ) && final(self).waiting@ == old(self).waiting@.skip(1),
            old(self).waiting@.len() == 0 ==> {
                &&& final(self).waiting@ == old(self).waiting@
                &&& command == (if old(self).closing {
                    Some(PersistenceCommand::Shutdown)
                } else {
                    None
                })
            },
    {
        if self.waiting.len() > 0 {
            let document = self.waiting.remove(0);
            assert(self.waiting@ =~= old(self).waiting@.skip(1));
            Some(PersistenceCommand::Save(document))
        } else if self.closing {
            Some(PersistenceCommand::Shutdown)
        } else {
            None
        }
    }
}

/// The newest document is never one that is dropped, and nothing is dropped
/// while there is room.
pub proof fn law_newest_document_wins(queue: SaveQueue, document: SessionDocument)
    requires
        queue.wf(),
    ensures
        queue.with_newest(document).last() == document,
        queue.with_newest(document).len() <= CHANNEL_CAPACITY,
        queue.waiting@.len() < CHANNEL_CAPACITY ==> queue.with_newest(document).drop_last()
            == queue.waiting@,
{
    if queue.waiting@.len() < CHANNEL_CAPACITY {
        assert(queue.with_newest(document).drop_last() =~= queue.waiting@);
    }
}

/// Where eight documents wait, one more waits alone.
pub proof fn law_a_full_queue_holds_the_newest_alone(queue: SaveQueue, document: SessionDocument)
    ensures
        queue.waiting@.len() >= 8 ==> queue.with_newest(document).len() == 1,
        queue.waiting@.len() < 8 ==> queue.with_newest(document).len() == queue.waiting@.len()
            + 1,
        queue.with_newest(document).last() == document,
{
}

} // verus!
