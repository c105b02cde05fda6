//! Log rotation: when the log file is reopened, and which handle a chunk of
//! output goes to.

use vstd::prelude::*;

verus! {

/// What has to happen before the next chunk is written.
#[derive(Debug, Clone, Copy, PartialEq, Eq, Structural)]
pub enum LogAction {
    /// Open the log file anew at its path, then write.
    Reopen,
    /// Write through the handle in use.
    Write,
}

/// The handle that takes the next chunk.
#[derive(Debug, Clone, Copy, PartialEq, Eq, Structural)]
pub enum LogHandle {
    /// The handle that was just opened; the one before it is closed.
    Fresh,
    /// The handle that was in use before.
    Previous,
}

/// Whether a rotation is still owed after an attempt to reopen: it is
/// until an attempt succeeds.
pub open spec fn owed_after(pending: bool, reopened: bool) -> bool {
    pending && !reopened
}

/// The handle to write through after an attempt to reopen.
pub open spec fn handle_after(reopened: bool) -> LogHandle {
    if reopened {
        LogHandle::Fresh
    } else {
        LogHandle::Previous
    }
}

/// Keeps track of a requested rotation of the log file. The file itself is
/// with the caller, who opens and writes as this says.
#[derive(Debug)]
pub struct LogRotator {
    pending: bool,
}

impl LogRotator {
    /// Whether a rotation was requested and the file was not reopened since.
    pub closed spec fn pending_spec(&self) -> bool {
        self.pending
    }

    /// A rotator for a file that was just opened.
    pub fn new() -> (rotator: LogRotator)
        ensures
            !rotator.pending(),
    {
        LogRotator { pending: false }
    }

    /// Whether a rotation was requested and the file was not reopened since.
    #[verifier::when_used_as_spec(pending_spec)]
    pub fn pending(&self) -> (r: bool)
        ensures
            r == self.pending_spec(),
    {
        self.pending
    }

    /// Requests that the file be reopened before the next chunk is written.
    pub fn request_rotation(&mut self)
        ensures
            final(self).pending(),
    {
        self.pending = true;
    }

    /// What has to happen before the next chunk is written.
    pub fn before_write(&self) -> (r: LogAction)
        ensures
            r == (if self.pending() {
                LogAction::Reopen
            } else {
                LogAction::Write
            }),
    {
        if self.pending {
            LogAction::Reopen
        } else {
            LogAction::Write
        }
    }

    /// Takes the outcome of reopening the file. After a success the chunk
    /// goes to the fresh handle and the rotation is done. After a failure
    /// the chunk goes to the previous handle, the failure is handed back for
    /// the caller to report, and the rotation stays owed.
    pub fn reopened<E>(&mut self, outcome: Result<(), E>) -> (r: (LogHandle, Option<E>))
        ensures
            final(self).pending() == owed_after(old(self).pending(), outcome is Ok),
            r.0 == handle_after(outcome is Ok),
            r.1 == match outcome {
                Ok(_) => None,
                Err(e) => Some(e),
            },
    {
        match outcome {
            Ok(_) => {
                self.pending = false;
                (LogHandle::Fresh, None)
            },
            Err(e) => (LogHandle::Previous, Some(e)),
        }
    }
}

/// The log as its files: those closed by a rotation, oldest first, and the
/// one in use; and whether a rotation is owed.
pub ghost struct LogFiles {
    pub closed: Seq<Seq<u8>>,
    pub current: Seq<u8>,
    pub pending: bool,
}

/// One thing that happens to the log.
pub ghost enum LogOp {
    /// A rotation is requested.
    Rotate,
    /// These bytes are written; `reopened` tells whether reopening the file
    /// succeeds, should it be due.
    Write { bytes: Seq<u8>, reopened: bool },
}

/// A log that was just opened and holds nothing.
pub open spec fn empty_log() -> LogFiles {
    LogFiles { closed: Seq::empty(), current: Seq::empty(), pending: false }
}

/// The log after one operation, each chunk going whole to the handle that
/// the rotator names for it.
pub open spec fn apply(log: LogFiles, op: LogOp) -> LogFiles {
    match op {
        LogOp::Rotate => LogFiles { pending: true, ..log },
        LogOp::Write { bytes, reopened } => {
            if log.pending && handle_after(reopened) == LogHandle::Fresh {
                LogFiles {
                    closed: log.closed.push(log.current),
                    current: bytes,
                    pending: owed_after(log.pending, reopened),
                }
            } else {
                LogFiles { current: log.current + bytes, ..log }
            }
        },
    }
}

/// The log after a history of operations, oldest first.
pub open spec fn replay(log: LogFiles, ops: Seq<LogOp>) -> LogFiles
    decreases ops.len(),
{
    if ops.len() == 0 {
        log
    } else {
        apply(replay(log, ops.drop_last()), ops.last())
    }
}

/// Chunks joined in order.
pub open spec fn joined(chunks: Seq<Seq<u8>>) -> Seq<u8>
    decreases chunks.len(),
{
    if chunks.len() == 0 {
        Seq::empty()
    } else {
        joined(chunks.drop_last()) + chunks.last()
    }
}

/// Everything the log holds, oldest byte first.
pub open spec fn contents(log: LogFiles) -> Seq<u8> {
    joined(log.closed) + log.current
}

/// The bytes that a history writes, in order.
pub open spec fn written(ops: Seq<LogOp>) -> Seq<u8>
    decreases ops.len(),
{
    if ops.len() == 0 {
        Seq::empty()
    } else {
        match ops.last() {
            LogOp::Rotate => written(ops.drop_last()),
            LogOp::Write { bytes, .. } => written(ops.drop_last()) + bytes,
        }
    }
}

/// Writes of the given chunks, in order, each with a reopening that
/// succeeds where it is due.
pub open spec fn writes(chunks: Seq<Seq<u8>>) -> Seq<LogOp> {
    Seq::new(chunks.len(), |i: int| LogOp::Write { bytes: chunks[i], reopened: true })
}

/// Replaying two histories in a row is replaying them joined.
pub proof fn lemma_replay_append(log: LogFiles, first: Seq<LogOp>, second: Seq<LogOp>)
    ensures
        replay(log, first + second) == replay(replay(log, first), second),
    decreases second.len(),
{
    if second.len() > 0 {
        lemma_replay_append(log, first, second.drop_last());
        assert((first + second).drop_last() == first + second.drop_last());
    }
}

/// Without a rotation owed, writes all go to the file in use.
pub proof fn lemma_replay_writes(log: LogFiles, chunks: Seq<Seq<u8>>)
    requires
        !log.pending,
    ensures
        replay(log, writes(chunks)) == (LogFiles {
            current: log.current + joined(chunks),
            ..log
        }),
    decreases chunks.len(),
{
    if chunks.len() > 0 {
        lemma_replay_writes(log, chunks.drop_last());
        assert(writes(chunks).drop_last() == writes(chunks.drop_last()));
        assert(log.current + joined(chunks.drop_last()) + chunks.last() == log.current + joined(
            chunks,
        ));
    }
}

/// Joining chunks is the first chunk, then the rest joined.
pub proof fn lemma_joined_first(chunks: Seq<Seq<u8>>)
    requires
        chunks.len() > 0,
    ensures
        joined(chunks) == chunks[0] + joined(chunks.drop_first()),
    decreases chunks.len(),
{
    if chunks.len() == 1 {
        assert(chunks.drop_last() == Seq::<Seq<u8>>::empty());
        assert(chunks.drop_first() == Seq::<Seq<u8>>::empty());
    } else {
        lemma_joined_first(chunks.drop_last());
        assert(chunks.drop_last().drop_first() == chunks.drop_first().drop_last());
        let middle = joined(chunks.drop_first().drop_last());
        assert(chunks[0] + middle + chunks.last() == chunks[0] + (middle + chunks.last()));
    }
}

/// Nothing is lost, doubled or reordered: whatever is rotated and however
/// reopening fares, the log holds what it held, then every byte written,
/// in the order of writing.
pub proof fn law_log_keeps_every_byte(log: LogFiles, ops: Seq<LogOp>)
    ensures
        contents(replay(log, ops)) == contents(log) + written(ops),
    decreases ops.len(),
{
    if ops.len() > 0 {
        let before = replay(log, ops.drop_last());
        law_log_keeps_every_byte(log, ops.drop_last());
        match ops.last() {
            LogOp::Rotate => {},
            LogOp::Write { bytes, reopened } => {
                if before.pending && reopened {
                    assert(before.closed.push(before.current).drop_last() == before.closed);
                }
                assert(contents(log) + written(ops.drop_last()) + bytes == contents(log)
                    + written(ops));
            },
        }
    }
}

/// A rotation splits the output at the request: what was written before
/// it fills the file that the rotation closes, and what is written after
/// it, from the first byte on, fills the file opened in its place.
pub proof fn law_rotation_splits_at_the_request(before: Seq<Seq<u8>>, after: Seq<Seq<u8>>)
    requires
        after.len() > 0,
    ensures
        replay(empty_log(), writes(before) + seq![LogOp::Rotate] + writes(after)) == (LogFiles {
            closed: seq![joined(before)],
            current: joined(after),
            pending: false,
        }),
{
    let log = empty_log();
    let head = writes(before) + seq![LogOp::Rotate];
    lemma_replay_append(log, head, writes(after));
    assert(head.drop_last() == writes(before));
    lemma_replay_writes(log, before);
    let at_request = replay(log, head);
    assert(at_request == LogFiles { closed: Seq::empty(), current: joined(before), pending: true });
    let first = seq![LogOp::Write { bytes: after[0], reopened: true }];
    let rest = after.drop_first();
    assert(writes(after) == first + writes(rest));
    lemma_replay_append(at_request, first, writes(rest));
    let reopened = replay(at_request, first);
    assert(reopened == LogFiles {
        closed: seq![joined(before)],
        current: after[0],
        pending: false,
    }) by {
        assert(replay(at_request, first.drop_last()) == at_request);
    }
    lemma_replay_writes(reopened, rest);
    lemma_joined_first(after);
}

/// While reopening fails, output goes on into the file in use and the
/// rotation stays owed: nothing is dropped and no file is closed.
pub proof fn law_failed_reopen_keeps_previous_file(log: LogFiles, bytes: Seq<u8>)
    ensures
        apply(log, LogOp::Write { bytes, reopened: false }) == (LogFiles {
            current: log.current + bytes,
            ..log
        }),
{
}

} // verus!
