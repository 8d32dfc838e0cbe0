//! Teeing: a body that is read is written to storage at the same time.
//!
//! The reader of a body gets every byte of it. While the body stays within the cap and the writer
//! takes the bytes, the reader gets each byte once the writer has it: a slow writer holds the
//! reader back. What was read and not handed on is held, and nothing more is read until it is
//! gone. At the end of the body what was written is committed, with the body's trailers. Where the
//! body goes over the cap, or the writer fails, the writer is dropped, nothing is stored, and the
//! reader gets the rest of the body unchanged. Either way the reader gets the trailers.
//!
//! A `Tee` decides each step. Whoever owns the body and the writer polls them as it says and
//! reports what came of it:
//!
//! - `next` says what to do when the reader asks for bytes;
//! - `chunk_read` takes how many bytes came from the body and says what to do with them, and
//!   `chunk_polled` takes them, with what came of offering them to the writer;
//! - `held_polled` takes what came of offering bytes that the writer left before, and `pass_held`
//!   hands out those that a dropped writer left;
//! - `ended` takes the end of the body with its trailers, and `finalize_polled` whether the commit
//!   is done; `take_trailers` hands the trailers to the reader.
use trillium_http::Headers;
use vstd::prelude::*;

use crate::headers::{clone_trailers, trailers_view, Fields};

verus! {

/// What came of offering bytes to a writer.
#[derive(Clone, Copy, Debug, PartialEq, Eq, Structural)]
pub enum WritePoll {
    /// The writer is not ready.
    Pending,
    /// The writer took this many of the bytes.
    Accepted(usize),
    /// The writer failed.
    Failed,
}

impl WritePoll {
    /// Whether the writer took no more than it was offered.
    pub open spec fn within(self, offered: nat) -> bool {
        self matches WritePoll::Accepted(n) ==> n <= offered
    }

    /// Whether the writer is in order: it takes bytes, now or later.
    pub open spec fn willing(self) -> bool {
        match self {
            WritePoll::Pending => true,
            WritePoll::Accepted(n) => n > 0,
            WritePoll::Failed => false,
        }
    }
}

/// What a tee does when the reader asks for bytes.
#[derive(Clone, Copy, Debug, PartialEq, Eq, Structural)]
pub enum Next {
    /// Poll the commit.
    PollFinalize,
    /// Offer the held bytes to the writer.
    WriteHeld,
    /// Hand held bytes to the reader.
    PassHeld,
    /// Read from the body.
    Read,
    /// The body has ended.
    End,
}

/// What a tee does with bytes that were read.
#[derive(Clone, Copy, Debug, PartialEq, Eq, Structural)]
pub enum OnChunk {
    /// Offer them to the writer.
    Write,
    /// Drop the writer, and hand them to the reader.
    DropWriter,
    /// Hand them to the reader.
    PassOn,
}

/// What the reader gets.
#[derive(Clone, Copy, Debug, PartialEq, Eq, Structural)]
pub enum Give {
    /// This many bytes.
    Bytes(usize),
    /// Nothing yet: the reader waits for the writer.
    Wait,
    /// Nothing yet: ask again what to do.
    Again,
}

/// What a tee does at the end of the body.
#[derive(Debug)]
pub enum AtEnd {
    /// Start the commit, with these trailers.
    Commit { trailers: Option<Headers> },
    /// Nothing: there is no writer any more.
    Pass,
}

/// How far a tee is.
#[derive(Clone, Copy, Debug, PartialEq, Eq, Structural)]
pub enum TeeState {
    /// Bytes go to the writer.
    Active,
    /// The writer was dropped; bytes go to the reader alone.
    Aborted,
    /// The body has ended and the commit is under way.
    Finalizing,
    /// The body has ended and the commit is over.
    Done,
    /// The body has ended and nothing was stored.
    Passed,
}

/// The progress of a body that is read and stored at once.
pub struct Tee {
    state: TeeState,
    cap: u64,
    /// How many bytes were read, while the writer is live.
    count: u64,
    held: Vec<u8>,
    trailers: Option<Headers>,
    /// The bytes that were read from the body.
    read: Ghost<Seq<u8>>,
    /// The bytes that were handed to the reader.
    delivered: Ghost<Seq<u8>>,
    /// The bytes that the writer took.
    accepted: Ghost<Seq<u8>>,
    /// The trailers that a commit was started with, if one was.
    committed: Ghost<Option<Option<Fields>>>,
}

/// What a tee stands for.
#[verifier::ext_equal]
pub struct TeeView {
    pub state: TeeState,
    pub cap: u64,
    /// The bytes that were read from the body.
    pub read: Seq<u8>,
    /// The bytes that were read and that the reader does not have yet.
    pub held: Seq<u8>,
    /// The bytes that were handed to the reader.
    pub delivered: Seq<u8>,
    /// The bytes that the writer took.
    pub accepted: Seq<u8>,
    /// The trailers that the reader can take.
    pub trailers: Option<Fields>,
    /// The trailers that a commit was started with, if one was.
    pub committed: Option<Option<Fields>>,
}

/// One step of a tee.
pub enum TeeEvent {
    /// These bytes came from the body. The writer is asked where it is to have them.
    Chunk { bytes: Seq<u8>, poll: WritePoll },
    /// The held bytes were offered to the writer.
    Held { poll: WritePoll },
    /// This many of the held bytes were handed to the reader.
    Pass { count: nat },
    /// The body ended, with these trailers.
    End { trailers: Option<Fields> },
    /// The commit was polled.
    Commit { ready: bool },
    /// The reader took the trailers.
    TakeTrailers,
}

impl View for Tee {
    type V = TeeView;

    closed spec fn view(&self) -> TeeView {
        TeeView {
            state: self.state,
            cap: self.cap,
            read: self.read@,
            held: self.held@,
            delivered: self.delivered@,
            accepted: self.accepted@,
            trailers: trailers_view(self.trailers),
            committed: self.committed@,
        }
    }
}

/// A tee that nothing was read through yet.
pub open spec fn fresh_tee(cap: u64) -> TeeView {
    TeeView {
        state: TeeState::Active,
        cap,
        read: Seq::empty(),
        held: Seq::empty(),
        delivered: Seq::empty(),
        accepted: Seq::empty(),
        trailers: None,
        committed: None,
    }
}

impl TeeView {
    /// The reader has what was read but for what is held. A live writer has exactly what the reader
    /// has, within the cap; a commit is started only on the whole body.
    pub open spec fn sound(self) -> bool {
        &&& self.read == self.delivered + self.held
        &&& self.accepted.len() <= self.cap
        &&& self.committed is Some <==> self.state is Finalizing || self.state is Done
        &&& match self.state {
            TeeState::Active => self.accepted == self.delivered && self.read.len() <= self.cap,
            TeeState::Aborted => true,
            TeeState::Finalizing | TeeState::Done => {
                self.held.len() == 0 && self.accepted == self.read
            },
            TeeState::Passed => self.held.len() == 0,
        }
    }

    /// Whether the next bytes come from the body.
    pub open spec fn reads(self) -> bool {
        (self.state is Active || self.state is Aborted) && self.held.len() == 0
    }

    /// Whether the writer is to have `n` more bytes of the body.
    pub open spec fn takes(self, n: nat) -> bool {
        self.state is Active && self.read.len() + n <= self.cap
    }

    /// Whether this step can come next.
    pub open spec fn allows(self, event: TeeEvent) -> bool {
        match event {
            TeeEvent::Chunk { bytes, poll } => {
                self.reads() && bytes.len() > 0 && (self.takes(bytes.len()) ==> poll.within(
                    bytes.len(),
                ))
            },
            TeeEvent::Held { poll } => {
                self.state is Active && self.held.len() > 0 && poll.within(self.held.len())
            },
            TeeEvent::Pass { count } => {
                self.state is Aborted && 0 < count <= self.held.len()
            },
            TeeEvent::End { trailers } => self.reads(),
            TeeEvent::Commit { ready } => self.state is Finalizing,
            TeeEvent::TakeTrailers => true,
        }
    }

    /// The bytes that the writer is offered in a step, at most.
    pub open spec fn offered(self, event: TeeEvent) -> Seq<u8> {
        match event {
            TeeEvent::Chunk { bytes, .. } if self.takes(bytes.len()) => bytes,
            TeeEvent::Held { .. } => self.held,
            _ => Seq::empty(),
        }
    }

    /// The tee after writer and reader both got the first `n` of the held bytes.
    pub open spec fn moved(self, n: int) -> TeeView {
        TeeView {
            held: self.held.skip(n),
            delivered: self.delivered + self.held.take(n),
            accepted: self.accepted + self.held.take(n),
            ..self
        }
    }

    /// The tee after the reader alone got the first `n` of the held bytes.
    pub open spec fn passed(self, n: int) -> TeeView {
        TeeView {
            held: self.held.skip(n),
            delivered: self.delivered + self.held.take(n),
            ..self
        }
    }

    /// The tee after the writer was dropped.
    pub open spec fn aborted(self) -> TeeView {
        TeeView { state: TeeState::Aborted, ..self }
    }

    /// The tee with bytes that were read and that nobody has yet.
    pub open spec fn with(self, bytes: Seq<u8>) -> TeeView {
        TeeView { read: self.read + bytes, held: bytes, ..self }
    }

    /// The tee after the held bytes were offered to the writer.
    pub open spec fn after_offer(self, poll: WritePoll) -> TeeView {
        match poll {
            WritePoll::Pending => self,
            WritePoll::Accepted(n) if n > 0 => self.moved(n as int),
            _ => self.aborted(),
        }
    }

    /// The tee after a step.
    pub open spec fn after(self, event: TeeEvent) -> TeeView {
        match event {
            TeeEvent::Chunk { bytes, poll } => {
                let full = self.with(bytes);
                if !self.takes(bytes.len()) || !poll.willing() {
                    // Nobody else is to have these bytes: the reader gets them all.
                    full.aborted().passed(bytes.len() as int)
                } else {
                    full.after_offer(poll)
                }
            },
            TeeEvent::Held { poll } => self.after_offer(poll),
            TeeEvent::Pass { count } => self.passed(count as int),
            TeeEvent::End { trailers } => if self.state is Active {
                TeeView {
                    state: TeeState::Finalizing,
                    trailers,
                    committed: Some(trailers),
                    ..self
                }
            } else {
                TeeView { state: TeeState::Passed, trailers, ..self }
            },
            TeeEvent::Commit { ready } => if ready {
                TeeView { state: TeeState::Done, ..self }
            } else {
                self
            },
            TeeEvent::TakeTrailers => TeeView { trailers: None, ..self },
        }
    }

    /// Every step keeps a tee sound.
    pub proof fn lemma_after(self, event: TeeEvent)
        requires
            self.sound(),
            self.allows(event),
        ensures
            self.after(event).sound(),
    {
        match event {
            TeeEvent::Chunk { bytes, poll } => {
                let full = self.with(bytes);
                assert(self.delivered + self.held =~= self.delivered);
                assert(full.read =~= full.delivered + full.held);
                lemma_cut(full.delivered, bytes, bytes.len() as int);
                if let WritePoll::Accepted(n) = poll {
                    if n > 0 && self.takes(bytes.len()) {
                        lemma_cut(full.delivered, bytes, n as int);
                    }
                }
            },
            TeeEvent::Held { poll } => {
                if let WritePoll::Accepted(n) = poll {
                    if n > 0 {
                        lemma_cut(self.delivered, self.held, n as int);
                    }
                }
            },
            TeeEvent::Pass { count } => {
                lemma_cut(self.delivered, self.held, count as int);
            },
            TeeEvent::End { trailers } => {
                assert(self.delivered + self.held =~= self.delivered);
            },
            TeeEvent::Commit { ready } => {},
            TeeEvent::TakeTrailers => {},
        }
    }
}

proof fn lemma_cut(front: Seq<u8>, bytes: Seq<u8>, n: int)
    requires
        0 <= n <= bytes.len(),
    ensures
        front + bytes == (front + bytes.take(n)) + bytes.skip(n),
{
    assert(front + bytes =~= (front + bytes.take(n)) + bytes.skip(n));
}

impl Tee {
    /// The view is sound, and the counter agrees with what was read while the writer is live.
    pub closed spec fn wf(self) -> bool {
        &&& self@.sound()
        &&& self.state is Active ==> self.count == self.read@.len()
    }

    /// What a tee keeps at every step.
    pub proof fn lemma_sound(self)
        requires
            self.wf(),
        ensures
            self@.sound(),
    {
    }

    /// A tee for a body of which at most `cap` bytes are stored.
    pub fn new(cap: u64) -> (r: Tee)
        ensures
            r.wf(),
            r@ == fresh_tee(cap),
    {
        let r = Tee {
            state: TeeState::Active,
            cap,
            count: 0,
            held: Vec::new(),
            trailers: None,
            read: Ghost(Seq::empty()),
            delivered: Ghost(Seq::empty()),
            accepted: Ghost(Seq::empty()),
            committed: Ghost(None),
        };
        proof {
            assert(r@ =~= fresh_tee(cap));
            assert(r@.delivered + r@.held =~= r@.read);
        }
        r
    }

    /// Whether the writer is live.
    pub fn is_active(&self) -> (r: bool)
        ensures
            r == (self@.state is Active),
    {
        matches!(self.state, TeeState::Active)
    }

    /// The bytes that were read and that the reader does not have yet.
    pub fn held(&self) -> (r: &Vec<u8>)
        ensures
            r@ == self@.held,
    {
        &self.held
    }

    /// What to do when the reader asks for bytes.
    pub fn next(&self) -> (r: Next)
        requires
            self.wf(),
        ensures
            match r {
                Next::PollFinalize => self@.state is Finalizing,
                Next::End => self@.state is Done || self@.state is Passed,
                Next::WriteHeld => self@.state is Active && self@.held.len() > 0,
                Next::PassHeld => self@.state is Aborted && self@.held.len() > 0,
                Next::Read => self@.reads(),
            },
    {
        match self.state {
            TeeState::Finalizing => Next::PollFinalize,
            TeeState::Done | TeeState::Passed => Next::End,
            TeeState::Active => {
                if self.held.len() > 0 {
                    Next::WriteHeld
                } else {
                    Next::Read
                }
            },
            TeeState::Aborted => {
                if self.held.len() > 0 {
                    Next::PassHeld
                } else {
                    Next::Read
                }
            },
        }
    }

    /// Moves the first `n` of the held bytes into `buf`.
    fn take_held(&mut self, n: usize, buf: &mut [u8])
        requires
            n <= old(self)@.held.len(),
            n <= old(buf)@.len(),
        ensures
            final(self).held@ == old(self).held@.skip(n as int),
            final(self).state == old(self).state,
            final(self).cap == old(self).cap,
            final(self).count == old(self).count,
            final(self).read == old(self).read,
            final(self).delivered == old(self).delivered,
            final(self).accepted == old(self).accepted,
            final(self).trailers == old(self).trailers,
            final(self).committed == old(self).committed,
            final(buf)@ == old(self).held@.take(n as int) + old(buf)@.skip(n as int),
    {
        let ghost room = buf@;
        let ghost held = self.held@;
        let mut i: usize = 0;
        assert(buf@ =~= held.take(0) + room.skip(0));
        while i < n
            invariant
                i <= n,
                n <= held.len(),
                n <= room.len(),
                held == self.held@,
                *self == *old(self),
                buf@ == held.take(i as int) + room.skip(i as int),
            decreases n - i,
        {
            buf[i] = self.held[i];
            assert(buf@ =~= held.take(i as int + 1) + room.skip(i as int + 1));
            i += 1;
        }
        let rest = self.held.split_off(n);
        self.held = rest;
        assert(self.held@ =~= held.skip(n as int));
    }

    /// Takes what came of offering the held bytes, as many as the reader's buffer `buf` has room
    /// for. The reader gets what the writer took.
    pub fn held_polled(&mut self, poll: WritePoll, buf: &mut [u8]) -> (r: Give)
        requires
            old(self).wf(),
            old(self)@.allows(TeeEvent::Held { poll }),
            poll.within(old(buf)@.len()),
        ensures
            final(self).wf(),
            final(self)@ == old(self)@.after(TeeEvent::Held { poll }),
            match poll {
                WritePoll::Pending => r == Give::Wait && final(buf)@ == old(buf)@,
                WritePoll::Accepted(n) if n > 0 => r == Give::Bytes(n) && final(buf)@
                    == old(self)@.held.take(n as int) + old(buf)@.skip(n as int),
                _ => r == Give::Again && final(buf)@ == old(buf)@,
            },
    {
        let ghost before = self@;
        proof {
            before.lemma_after(TeeEvent::Held { poll });
        }
        match poll {
            WritePoll::Pending => Give::Wait,
            WritePoll::Accepted(n) => {
                if n == 0 {
                    self.state = TeeState::Aborted;
                    return Give::Again;
                }
                self.take_held(n, buf);
                proof {
                    self.delivered@ = before.delivered + before.held.take(n as int);
                    self.accepted@ = before.accepted + before.held.take(n as int);
                    assert(self@ =~= before.moved(n as int));
                }
                Give::Bytes(n)
            },
            WritePoll::Failed => {
                self.state = TeeState::Aborted;
                Give::Again
            },
        }
    }

    /// Hands the bytes that a dropped writer left to the reader, as many as `buf` has room for.
    /// Returns their number.
    pub fn pass_held(&mut self, buf: &mut [u8]) -> (r: usize)
        requires
            old(self).wf(),
            old(self)@.state is Aborted,
            old(self)@.held.len() > 0,
            old(buf)@.len() > 0,
        ensures
            final(self).wf(),
            r == if old(self)@.held.len() <= old(buf)@.len() {
                old(self)@.held.len()
            } else {
                old(buf)@.len()
            },
            final(self)@ == old(self)@.after(TeeEvent::Pass { count: r as nat }),
            final(buf)@ == old(self)@.held.take(r as int) + old(buf)@.skip(r as int),
    {
        let ghost before = self@;
        let n: usize = if self.held.len() <= buf.len() {
            self.held.len()
        } else {
            buf.len()
        };
        proof {
            before.lemma_after(TeeEvent::Pass { count: n as nat });
        }
        self.take_held(n, buf);
        proof {
            self.delivered@ = before.delivered + before.held.take(n as int);
            assert(self@ =~= before.passed(n as int));
        }
        n
    }

    /// Says what to do with bytes of the body, given how many were read.
    pub fn chunk_read(&self, n: usize) -> (r: OnChunk)
        requires
            self.wf(),
            self@.reads(),
        ensures
            r == if self@.takes(n as nat) {
                OnChunk::Write
            } else if self@.state is Active {
                OnChunk::DropWriter
            } else {
                OnChunk::PassOn
            },
    {
        if !self.is_active() {
            OnChunk::PassOn
        } else if n as u64 <= self.cap - self.count {
            OnChunk::Write
        } else {
            OnChunk::DropWriter
        }
    }

    /// Takes bytes of the body, which stand in the reader's buffer, with what came of offering them
    /// to the writer. Where the writer was not to have them, that does not matter. The reader gets
    /// what the writer took, or all of them where there is no writer any more.
    pub fn chunk_polled(&mut self, chunk: &[u8], poll: WritePoll) -> (r: Give)
        requires
            old(self).wf(),
            old(self)@.allows(TeeEvent::Chunk { bytes: chunk@, poll }),
        ensures
            final(self).wf(),
            final(self)@ == old(self)@.after(TeeEvent::Chunk { bytes: chunk@, poll }),
            r == if !old(self)@.takes(chunk@.len()) || !poll.willing() {
                Give::Bytes(chunk@.len() as usize)
            } else {
                match poll {
                    WritePoll::Accepted(n) => Give::Bytes(n),
                    _ => Give::Wait,
                }
            },
    {
        let ghost before = self@;
        let ghost event = TeeEvent::Chunk { bytes: chunk@, poll };
        proof {
            before.lemma_after(event);
            self.read@ = before.read + chunk@;
        }
        let asked: bool = self.is_active() && chunk.len() as u64 <= self.cap - self.count;
        let taken: usize = match poll {
            WritePoll::Pending => 0,
            WritePoll::Accepted(n) => n,
            WritePoll::Failed => 0,
        };
        let willing: bool = match poll {
            WritePoll::Pending => true,
            WritePoll::Accepted(n) => n > 0,
            WritePoll::Failed => false,
        };
        if !asked || !willing {
            self.state = TeeState::Aborted;
            proof {
                self.delivered@ = before.delivered + chunk@;
                assert(chunk@.take(chunk@.len() as int) =~= chunk@);
                assert(chunk@.skip(chunk@.len() as int) =~= Seq::<u8>::empty());
                assert(self.held@ =~= Seq::<u8>::empty());
                assert(self@ =~= before.after(event));
            }
            return Give::Bytes(chunk.len());
        }
        self.count = self.count + chunk.len() as u64;
        let mut i: usize = taken;
        assert(self.held@ =~= chunk@.subrange(taken as int, taken as int));
        while i < chunk.len()
            invariant
                taken <= i <= chunk.len(),
                self.held@ == chunk@.subrange(taken as int, i as int),
                self.state == before.state,
                self.cap == before.cap,
                self.count == self.read@.len(),
                self.read@ == before.read + chunk@,
                self.delivered@ == before.delivered,
                self.accepted@ == before.accepted,
                trailers_view(self.trailers) == before.trailers,
                self.committed@ == before.committed,
            decreases chunk.len() - i,
        {
            self.held.push(chunk[i]);
            assert(self.held@ =~= chunk@.subrange(taken as int, i as int + 1));
            i += 1;
        }
        proof {
            self.delivered@ = before.delivered + chunk@.take(taken as int);
            self.accepted@ = before.accepted + chunk@.take(taken as int);
            assert(self.held@ =~= chunk@.skip(taken as int));
            if taken == 0 {
                assert(chunk@.skip(0) =~= chunk@);
                assert(self.delivered@ =~= before.delivered);
                assert(self.accepted@ =~= before.accepted);
            }
            assert(self@ =~= before.after(event));
        }
        if taken == 0 {
            Give::Wait
        } else {
            Give::Bytes(taken)
        }
    }

    /// Takes the end of the body, with its trailers, and says what to do.
    pub fn ended(&mut self, trailers: Option<Headers>) -> (r: AtEnd)
        requires
            old(self).wf(),
            old(self)@.reads(),
        ensures
            final(self).wf(),
            final(self)@ == old(self)@.after(TeeEvent::End { trailers: trailers_view(trailers) }),
            match r {
                AtEnd::Commit { trailers: given } => old(self)@.state is Active && trailers_view(
                    given,
                ) == trailers_view(trailers),
                AtEnd::Pass => old(self)@.state is Aborted,
            },
    {
        let ghost event = TeeEvent::End { trailers: trailers_view(trailers) };
        proof {
            self@.lemma_after(event);
        }
        if !self.is_active() {
            self.state = TeeState::Passed;
            self.trailers = trailers;
            return AtEnd::Pass;
        }
        let given = clone_trailers(&trailers);
        proof {
            self.committed@ = Some(trailers_view(trailers));
        }
        self.state = TeeState::Finalizing;
        self.trailers = trailers;
        AtEnd::Commit { trailers: given }
    }

    /// Takes whether the commit is over, be it with an error. Returns whether the body has ended
    /// for the reader; otherwise the reader waits.
    pub fn finalize_polled(&mut self, ready: bool) -> (r: bool)
        requires
            old(self).wf(),
            old(self)@.state is Finalizing,
        ensures
            final(self).wf(),
            r == ready,
            final(self)@ == old(self)@.after(TeeEvent::Commit { ready }),
    {
        if ready {
            self.state = TeeState::Done;
        }
        ready
    }

    /// The trailers of the body, the first time that the reader asks for them after its end.
    pub fn take_trailers(&mut self) -> (r: Option<Headers>)
        requires
            old(self).wf(),
        ensures
            final(self).wf(),
            trailers_view(r) == old(self)@.trailers,
            final(self)@ == old(self)@.after(TeeEvent::TakeTrailers),
    {
        proof {
            self@.lemma_after(TeeEvent::TakeTrailers);
        }
        let mut taken: Option<Headers> = None;
        std::mem::swap(&mut taken, &mut self.trailers);
        taken
    }
}

/// How much of a body was copied, with a cap on it.
#[derive(Clone, Copy, Debug, PartialEq, Eq, Structural)]
pub struct CappedCopy {
    pub cap: u64,
    pub total: u64,
}

impl CappedCopy {
    /// A copy of at most `cap` bytes.
    pub fn new(cap: u64) -> (r: CappedCopy)
        ensures
            r.cap == cap,
            r.total == 0,
    {
        CappedCopy { cap, total: 0 }
    }

    /// Counts `n` more bytes, up to the largest count there is. Returns whether the count is within
    /// the cap; otherwise the copy is given up.
    pub fn add_bytes(&mut self, n: usize) -> (r: bool)
        ensures
            final(self).cap == old(self).cap,
            final(self).total == if old(self).total + n <= u64::MAX {
                old(self).total + n
            } else {
                u64::MAX as int
            },
            r == (final(self).total <= old(self).cap),
    {
        self.total = self.total.saturating_add(n as u64);
        self.total <= self.cap
    }
}

} // verus!
