//! The single writer: applies posted messages to the store one at a time and
//! handles the final dump on shutdown.
use vstd::prelude::*;

use crate::clock::now_seconds;
use crate::geometry::BoundingBox;
use crate::message::{Message, PostError};
use crate::store::{time_ordered, MessageStore};

verus! {

/// What a producer hands to the writer. The creation time of a written
/// message is assigned by the writer when it applies the write.
#[derive(Debug)]
pub enum WriterCommand {
    Write(Message),
    Dump,
}

/// Where the writer stands in its lifecycle.
#[derive(Clone, Copy, Debug, PartialEq, Eq, Structural)]
pub enum Phase {
    Running,
    Dumping,
    Terminated,
}

/// What the writer did with a command.
#[derive(Debug)]
pub enum Applied {
    /// The message was appended to the store.
    Stored,
    /// Writes are now closed; the messages are to be saved, and `finish`
    /// called once they are.
    Dump(Vec<Message>),
    /// The writer no longer accepts commands; nothing changed.
    Refused,
}

/// Why a snapshot could not become the store.
#[derive(Clone, Copy, Debug, PartialEq, Eq, Structural)]
pub enum LoadError {
    /// The saved messages are not in creation order.
    OutOfOrder,
}

/// The creation time the writer gives a message applied at `now` after the
/// messages of `s`: `now`, unless the clock reads earlier than the newest
/// message, whose time is then taken so that the order is kept.
pub open spec fn stamp_time(s: Seq<Message>, now: i64) -> i64 {
    if s.len() > 0 && now < s.last().created_at {
        s.last().created_at
    } else {
        now
    }
}

/// `msg` as the writer stores it when applied at `now` after `s`.
pub open spec fn stamped(s: Seq<Message>, msg: Message, now: i64) -> Message {
    Message { created_at: stamp_time(s, now), ..msg }
}

/// One step of the writer at time `now`, from phase `p0` and store `s0` to
/// phase `p1` and store `s1`, with result `r`. While running, a write is
/// stamped and appended, and a dump request closes writes and hands back
/// every stored message; after that, every command is refused.
pub open spec fn writer_step(
    p0: Phase,
    s0: Seq<Message>,
    cmd: WriterCommand,
    now: i64,
    p1: Phase,
    s1: Seq<Message>,
    r: Applied,
) -> bool {
    if p0 == Phase::Running {
        match cmd {
            WriterCommand::Write(m) => {
                &&& r is Stored
                &&& s1 == s0.push(stamped(s0, m, now))
                &&& p1 == Phase::Running
            },
            WriterCommand::Dump => {
                &&& r matches Applied::Dump(v) && v@ == s0
                &&& s1 == s0
                &&& p1 == Phase::Dumping
            },
        }
    } else {
        &&& r is Refused
        &&& s1 == s0
        &&& p1 == p0
    }
}

/// The writer's state.
pub struct IngestCoordinator {
    phase: Phase,
}

impl IngestCoordinator {
    pub closed spec fn spec_phase(&self) -> Phase {
        self.phase
    }

    /// A writer that accepts writes.
    pub fn new() -> (r: IngestCoordinator)
        ensures
            r.spec_phase() == Phase::Running,
    {
        IngestCoordinator { phase: Phase::Running }
    }

    /// The current phase.
    pub fn phase(&self) -> (r: Phase)
        ensures
            r == self.spec_phase(),
    {
        self.phase
    }

    /// Applies one command at time `now`.
    pub fn apply_at(&mut self, store: &mut MessageStore, cmd: WriterCommand, now: i64) -> (r:
        Applied)
        requires
            old(store).wf(),
        ensures
            final(store).wf(),
            writer_step(
                old(self).spec_phase(),
                old(store)@,
                cmd,
                now,
                final(self).spec_phase(),
                final(store)@,
                r,
            ),
    {
        if self.phase != Phase::Running {
            return Applied::Refused;
        }
        match cmd {
            WriterCommand::Write(m) => {
                let mut m = m;
                m.created_at = match store.last_created_at() {
                    Some(last) if now < last => last,
                    _ => now,
                };
                store.append(m);
                Applied::Stored
            },
            WriterCommand::Dump => {
                self.phase = Phase::Dumping;
                Applied::Dump(store.snapshot())
            },
        }
    }

    /// Applies one command at the time read from the wall clock.
    pub fn apply(&mut self, store: &mut MessageStore, cmd: WriterCommand) -> (r: Applied)
        requires
            old(store).wf(),
        ensures
            final(store).wf(),
            exists|now: i64|
                #[trigger] writer_step(
                    old(self).spec_phase(),
                    old(store)@,
                    cmd,
                    now,
                    final(self).spec_phase(),
                    final(store)@,
                    r,
                ),
    {
        let now = now_seconds();
        let r = self.apply_at(store, cmd, now);
        proof {
            assert(writer_step(
                old(self).spec_phase(),
                old(store)@,
                cmd,
                now,
                final(self).spec_phase(),
                final(store)@,
                r,
            ));
        }
        r
    }

    /// Records that the dump was saved. Only a dumping writer terminates;
    /// the result says whether it did.
    pub fn finish(&mut self) -> (r: bool)
        ensures
            r == (old(self).spec_phase() == Phase::Dumping),
            r ==> final(self).spec_phase() == Phase::Terminated,
            !r ==> final(self).spec_phase() == old(self).spec_phase(),
    {
        if self.phase == Phase::Dumping {
            self.phase = Phase::Terminated;
            true
        } else {
            false
        }
    }
}

/// Validates a post and stamps it with the time of posting, giving the
/// command to hand to the writer.
pub fn submit(user: String, text: String, bounding_box: BoundingBox) -> (r: Result<
    WriterCommand,
    PostError,
>)
    ensures
        user@.len() == 0 ==> r == Err::<WriterCommand, PostError>(PostError::EmptyUser),
        user@.len() > 0 && text@.len() == 0 ==> r == Err::<WriterCommand, PostError>(
            PostError::EmptyText,
        ),
        user@.len() > 0 && text@.len() > 0 ==> (r matches Ok(WriterCommand::Write(m)) && m.user
            == user && m.text == text && m.bounding_box == bounding_box),
{
    match Message::new(now_seconds(), user, text, bounding_box) {
        Ok(m) => Ok(WriterCommand::Write(m)),
        Err(e) => Err(e),
    }
}

/// The store to start with: empty when no snapshot was found, else the
/// snapshot's messages, which must be in creation order.
pub fn load_snapshot(found: Option<Vec<Message>>) -> (r: Result<MessageStore, LoadError>)
    ensures
        r matches Ok(s) ==> s.wf(),
        found is None ==> (r matches Ok(s) && s@ == Seq::<Message>::empty()),
        found matches Some(v) ==> (r is Ok <==> time_ordered(v@)),
        found matches Some(v) ==> (r matches Ok(s) ==> s@ == v@),
        found matches Some(v) ==> (!time_ordered(v@) ==> r == Err::<MessageStore, LoadError>(
            LoadError::OutOfOrder,
        )),
{
    let mut store = MessageStore::new();
    match found {
        None => Ok(store),
        Some(v) => {
            if store.restore(v) {
                Ok(store)
            } else {
                Err(LoadError::OutOfOrder)
            }
        },
    }
}

} // verus!
