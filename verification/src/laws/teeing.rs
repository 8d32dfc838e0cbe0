//! Laws on bodies that are read and stored at once, over whole runs of a tee.
use vstd::prelude::*;

use crate::headers::{trailers_view, Fields};
use crate::tee::{
    fresh_tee, AtEnd, CappedCopy, Give, Next, OnChunk, Tee, TeeEvent, TeeView, WritePoll,
};

verus! {

/// The tee after a run of steps.
pub open spec fn after_run(cap: u64, events: Seq<TeeEvent>) -> TeeView
    decreases events.len(),
{
    if events.len() == 0 {
        fresh_tee(cap)
    } else {
        after_run(cap, events.drop_last()).after(events.last())
    }
}

/// Whether each step of a run can come where it comes.
pub open spec fn is_run(cap: u64, events: Seq<TeeEvent>) -> bool
    decreases events.len(),
{
    events.len() > 0 ==> is_run(cap, events.drop_last()) && after_run(
        cap,
        events.drop_last(),
    ).allows(events.last())
}

/// The body: the bytes that came from it, in order.
pub open spec fn body_of(events: Seq<TeeEvent>) -> Seq<u8>
    decreases events.len(),
{
    if events.len() == 0 {
        Seq::empty()
    } else {
        match events.last() {
            TeeEvent::Chunk { bytes, .. } => body_of(events.drop_last()) + bytes,
            _ => body_of(events.drop_last()),
        }
    }
}

/// How many commits were started: the body ended with a live writer.
pub open spec fn commits_of(cap: u64, events: Seq<TeeEvent>) -> nat
    decreases events.len(),
{
    if events.len() == 0 {
        0
    } else {
        let before = commits_of(cap, events.drop_last());
        if events.last() is End && after_run(cap, events.drop_last()).state is Active {
            before + 1
        } else {
            before
        }
    }
}

/// The trailers that came at the end of the body. `None` is a body that has not ended.
pub open spec fn trailers_of(events: Seq<TeeEvent>) -> Option<Option<Fields>>
    decreases events.len(),
{
    if events.len() == 0 {
        None
    } else {
        match events.last() {
            TeeEvent::End { trailers } => Some(trailers),
            _ => trailers_of(events.drop_last()),
        }
    }
}

/// Whether the writer took bytes each time it was asked, then or later.
pub open spec fn writer_is_willing(events: Seq<TeeEvent>) -> bool {
    forall|i: int| 0 <= i < events.len() ==> willing_at(#[trigger] events[i])
}

/// Whether the writer, if it was asked in this step, takes bytes, then or later.
pub open spec fn willing_at(event: TeeEvent) -> bool {
    match event {
        TeeEvent::Chunk { poll, .. } => !gives_up(poll),
        TeeEvent::Held { poll } => !gives_up(poll),
        _ => true,
    }
}

/// Whether a writer gave up: it failed, or it took nothing of what it was offered.
pub open spec fn gives_up(poll: WritePoll) -> bool {
    poll is Failed || poll == WritePoll::Accepted(0)
}

/// Whether the body has ended.
pub open spec fn has_ended(view: TeeView) -> bool {
    view.state is Finalizing || view.state is Done || view.state is Passed
}

/// Whether the writer was dropped.
pub open spec fn stores_nothing(view: TeeView) -> bool {
    view.state is Aborted || view.state is Passed
}

/// What a tee keeps at every step, whatever it is told: the reader has what was read but for what is
/// held, and a live writer has exactly what the reader has, within the cap.
pub proof fn every_tee_is_sound(tee: Tee)
    requires
        tee.wf(),
    ensures
        tee@.read == tee@.delivered + tee@.held,
        tee@.state is Active ==> tee@.accepted == tee@.delivered && tee@.read.len() <= tee@.cap,
        tee@.accepted.len() <= tee@.cap,
{
    tee.lemma_sound();
}

proof fn lemma_run(cap: u64, events: Seq<TeeEvent>)
    requires
        is_run(cap, events),
    ensures
        after_run(cap, events).sound(),
        after_run(cap, events).cap == cap,
        after_run(cap, events).read == body_of(events),
        has_ended(after_run(cap, events)) <==> trailers_of(events) is Some,
        after_run(cap, events).committed is Some ==> after_run(cap, events).committed
            == trailers_of(events),
        commits_of(cap, events) == if after_run(cap, events).state is Finalizing || after_run(
            cap,
            events,
        ).state is Done {
            1nat
        } else {
            0nat
        },
    decreases events.len(),
{
    if events.len() == 0 {
        assert(fresh_tee(cap).delivered + fresh_tee(cap).held =~= fresh_tee(cap).read);
    } else {
        lemma_run(cap, events.drop_last());
        after_run(cap, events.drop_last()).lemma_after(events.last());
    }
}

/// Whatever the writer does, the reader gets exactly the bytes of the body, in order: at every
/// moment those that came but for the ones that are held back, and at the end all of them.
pub proof fn the_reader_gets_the_body(cap: u64, events: Seq<TeeEvent>)
    requires
        is_run(cap, events),
    ensures
        after_run(cap, events).delivered + after_run(cap, events).held == body_of(events),
        has_ended(after_run(cap, events)) ==> after_run(cap, events).delivered == body_of(events),
{
    lemma_run(cap, events);
    let view = after_run(cap, events);
    if has_ended(view) {
        assert(view.delivered + view.held =~= view.delivered);
    }
}

/// Whether or not the body was stored, the reader can take its trailers once it has ended. They
/// stay until they are taken.
pub proof fn the_reader_gets_the_trailers(cap: u64, events: Seq<TeeEvent>)
    requires
        is_run(cap, events),
        forall|i: int| 0 <= i < events.len() ==> !(#[trigger] events[i] is TakeTrailers),
    ensures
        trailers_of(events) matches Some(trailers) ==> after_run(cap, events).trailers == trailers,
    decreases events.len(),
{
    if events.len() > 0 {
        let front = events.drop_last();
        assert forall|i: int| 0 <= i < front.len() implies !(
        #[trigger] front[i] is TakeTrailers) by {
            assert(front[i] == events[i]);
        }
        the_reader_gets_the_trailers(cap, front);
        lemma_run(cap, front);
        assert(!(events[events.len() - 1] is TakeTrailers));
    }
}

/// A live writer has exactly what the reader has: the reader waits for a slow writer.
pub proof fn a_live_writer_misses_nothing(cap: u64, events: Seq<TeeEvent>)
    requires
        is_run(cap, events),
        after_run(cap, events).state is Active,
    ensures
        after_run(cap, events).accepted == after_run(cap, events).delivered,
{
    lemma_run(cap, events);
}

proof fn lemma_willing(cap: u64, events: Seq<TeeEvent>)
    requires
        is_run(cap, events),
        writer_is_willing(events),
        body_of(events).len() <= cap,
    ensures
        !stores_nothing(after_run(cap, events)),
    decreases events.len(),
{
    if events.len() > 0 {
        let front = events.drop_last();
        assert forall|i: int| 0 <= i < front.len() implies willing_at(#[trigger] front[i]) by {
            assert(front[i] == events[i]);
        }
        lemma_willing(cap, front);
        lemma_run(cap, front);
        assert(willing_at(events[events.len() - 1]));
    }
}

/// A body within the cap, with a writer that takes bytes, is committed exactly once, with its
/// trailers, and the writer has all of it then.
pub proof fn bodies_within_the_cap_are_committed_once(cap: u64, events: Seq<TeeEvent>)
    requires
        is_run(cap, events),
        writer_is_willing(events),
        body_of(events).len() <= cap,
        has_ended(after_run(cap, events)),
    ensures
        commits_of(cap, events) == 1,
        after_run(cap, events).accepted == body_of(events),
        after_run(cap, events).committed == trailers_of(events),
        !stores_nothing(after_run(cap, events)),
{
    lemma_willing(cap, events);
    lemma_run(cap, events);
}

/// A body over the cap is never committed, and its writer is dropped.
pub proof fn bodies_over_the_cap_are_not_committed(cap: u64, events: Seq<TeeEvent>)
    requires
        is_run(cap, events),
        body_of(events).len() > cap,
    ensures
        commits_of(cap, events) == 0,
        stores_nothing(after_run(cap, events)),
{
    lemma_run(cap, events);
}

/// A writer is never offered more than the cap leaves room for, after what it took.
pub proof fn writers_are_offered_no_more_than_the_cap(
    cap: u64,
    events: Seq<TeeEvent>,
    event: TeeEvent,
)
    requires
        is_run(cap, events),
        after_run(cap, events).allows(event),
    ensures
        after_run(cap, events).accepted.len() + after_run(cap, events).offered(event).len() <= cap,
{
    lemma_run(cap, events);
}

/// However a run goes, at most one commit is started, and only on a whole body within the cap:
/// the writer has every byte of it, and no byte comes after.
pub proof fn only_whole_bodies_are_committed(cap: u64, events: Seq<TeeEvent>)
    requires
        is_run(cap, events),
    ensures
        commits_of(cap, events) <= 1,
        commits_of(cap, events) == 1 ==> {
            &&& after_run(cap, events).accepted == body_of(events)
            &&& after_run(cap, events).delivered == body_of(events)
            &&& body_of(events).len() <= cap
            &&& !after_run(cap, events).reads()
        },
{
    lemma_run(cap, events);
    the_reader_gets_the_body(cap, events);
}

/// A dropped writer stays dropped.
pub proof fn a_dropped_writer_stays_dropped(view: TeeView, event: TeeEvent)
    requires
        view.allows(event),
        stores_nothing(view),
    ensures
        stores_nothing(view.after(event)),
        view.offered(event).len() == 0,
        view.after(event).accepted == view.accepted,
{
}

/// A tee begins with a writer, and with nothing read.
pub proof fn tees_begin_with_nothing_read(cap: u64, r: Tee)
    requires
        call_ensures(Tee::new, (cap,), r),
    ensures
        r.wf(),
        r@.state is Active,
        r@.cap == cap,
        r@.read.len() == 0 && r@.held.len() == 0,
        r@.delivered.len() == 0 && r@.accepted.len() == 0,
        r@.trailers is None,
        r@.committed is None,
{
}

/// A tee hands on what it holds before it reads more; and it says that the body has ended once it
/// has and, where there is a commit, that is over.
pub proof fn held_bytes_come_first(tee: &Tee, r: Next)
    requires
        tee.wf(),
        call_ensures(Tee::next, (tee,), r),
    ensures
        r is Read <==> tee@.held.len() == 0 && (tee@.state is Active || tee@.state is Aborted),
        r is WriteHeld <==> tee@.held.len() > 0 && tee@.state is Active,
        r is PassHeld <==> tee@.held.len() > 0 && tee@.state is Aborted,
        r is PollFinalize <==> tee@.state is Finalizing,
        r is End <==> tee@.state is Done || tee@.state is Passed,
{
    tee.lemma_sound();
}

/// Bytes go to a live writer where the body with them is within the cap; where they go over it, the
/// writer is dropped.
pub proof fn the_cap_decides_who_gets_bytes(tee: &Tee, n: usize, r: OnChunk)
    requires
        tee.wf(),
        call_ensures(Tee::chunk_read, (tee, n), r),
    ensures
        r is Write <==> tee@.state is Active && tee@.read.len() + n <= tee@.cap,
        r is DropWriter <==> tee@.state is Active && tee@.read.len() + n > tee@.cap,
        r is PassOn <==> !(tee@.state is Active),
{
}

/// Bytes of the body go to the writer where it is live and they are within the cap, and to the
/// reader as far as the writer took them; the reader gets all of them at once where the writer is
/// not to have them or gives up.
pub proof fn the_reader_gets_what_the_writer_took(
    tee: &mut Tee,
    chunk: &[u8],
    poll: WritePoll,
    r: Give,
)
    requires
        old(tee)@.held.len() == 0,
        poll matches WritePoll::Accepted(n) ==> n <= chunk@.len(),
        call_ensures(Tee::chunk_polled, (tee, chunk, poll), r),
    ensures
        final(tee)@.read == old(tee)@.read + chunk@,
        final(tee)@.cap == old(tee)@.cap,
        final(tee)@.trailers == old(tee)@.trailers,
        final(tee)@.committed == old(tee)@.committed,
        if old(tee)@.state is Active && old(tee)@.read.len() + chunk@.len() <= old(tee)@.cap
            && !gives_up(poll) {
            &&& final(tee)@.state is Active
            &&& poll is Pending ==> r is Wait && final(tee)@.held == chunk@
                && final(tee)@.delivered == old(tee)@.delivered && final(tee)@.accepted == old(
                tee,
            )@.accepted
            &&& poll matches WritePoll::Accepted(n) ==> r == Give::Bytes(n) && final(tee)@.held
                == chunk@.skip(n as int) && final(tee)@.delivered == old(tee)@.delivered
                + chunk@.take(n as int) && final(tee)@.accepted == old(tee)@.accepted + chunk@.take(
                n as int,
            )
        } else {
            &&& final(tee)@.state is Aborted
            &&& r == Give::Bytes(chunk@.len() as usize)
            &&& final(tee)@.held.len() == 0
            &&& final(tee)@.delivered == old(tee)@.delivered + chunk@
            &&& final(tee)@.accepted == old(tee)@.accepted
        },
{
    assert(chunk@.take(chunk@.len() as int) =~= chunk@);
}

/// Held bytes that a live writer takes go to the reader, and stand in its buffer; a writer that
/// gives up is dropped, and they are held on.
pub proof fn held_bytes_go_to_both(tee: &mut Tee, poll: WritePoll, buf: &mut [u8], r: Give)
    requires
        call_ensures(Tee::held_polled, (tee, poll, buf), r),
    ensures
        final(tee)@.read == old(tee)@.read,
        final(tee)@.cap == old(tee)@.cap,
        final(tee)@.trailers == old(tee)@.trailers,
        final(tee)@.committed == old(tee)@.committed,
        match poll {
            WritePoll::Accepted(n) if n > 0 => {
                &&& r == Give::Bytes(n)
                &&& final(tee)@.state == old(tee)@.state
                &&& final(tee)@.held == old(tee)@.held.skip(n as int)
                &&& final(tee)@.delivered == old(tee)@.delivered + old(tee)@.held.take(n as int)
                &&& final(tee)@.accepted == old(tee)@.accepted + old(tee)@.held.take(n as int)
                &&& final(buf)@ == old(tee)@.held.take(n as int) + old(buf)@.skip(n as int)
            },
            WritePoll::Pending => {
                &&& r is Wait
                &&& final(tee)@ == old(tee)@
                &&& final(buf)@ == old(buf)@
            },
            _ => {
                &&& r is Again
                &&& final(tee)@.state is Aborted
                &&& final(tee)@.held == old(tee)@.held
                &&& final(tee)@.delivered == old(tee)@.delivered
                &&& final(tee)@.accepted == old(tee)@.accepted
                &&& final(buf)@ == old(buf)@
            },
        },
{
}

/// Bytes that a dropped writer left go to the reader alone, as many as it has room for.
pub proof fn what_a_dropped_writer_left_is_passed_on(tee: &mut Tee, buf: &mut [u8], r: usize)
    requires
        call_ensures(Tee::pass_held, (tee, buf), r),
    ensures
        r <= old(tee)@.held.len() && r <= old(buf)@.len(),
        r == old(tee)@.held.len() || r == old(buf)@.len(),
        final(buf)@ == old(tee)@.held.take(r as int) + old(buf)@.skip(r as int),
        final(tee)@.held == old(tee)@.held.skip(r as int),
        final(tee)@.delivered == old(tee)@.delivered + old(tee)@.held.take(r as int),
        final(tee)@.accepted == old(tee)@.accepted,
        final(tee)@.state == old(tee)@.state,
        final(tee)@.read == old(tee)@.read,
        final(tee)@.cap == old(tee)@.cap,
        final(tee)@.trailers == old(tee)@.trailers,
        final(tee)@.committed == old(tee)@.committed,
{
}

/// At the end of the body a live writer commits, with the trailers of the body; the reader can
/// take them in any case.
pub proof fn live_writers_commit_at_the_end(
    tee: &mut Tee,
    trailers: Option<trillium_http::Headers>,
    r: AtEnd,
)
    requires
        old(tee)@.state is Active || old(tee)@.state is Aborted,
        call_ensures(Tee::ended, (tee, trailers), r),
    ensures
        final(tee)@.trailers == trailers_view(trailers),
        final(tee)@.read == old(tee)@.read,
        final(tee)@.held == old(tee)@.held,
        final(tee)@.delivered == old(tee)@.delivered,
        final(tee)@.accepted == old(tee)@.accepted,
        match r {
            AtEnd::Commit { trailers: given } => {
                &&& old(tee)@.state is Active
                &&& final(tee)@.state is Finalizing
                &&& trailers_view(given) == trailers_view(trailers)
                &&& final(tee)@.committed == Some(trailers_view(trailers))
            },
            AtEnd::Pass => {
                &&& old(tee)@.state is Aborted
                &&& final(tee)@.state is Passed
                &&& final(tee)@.committed == old(tee)@.committed
            },
        },
{
}

/// The reader waits for the commit, and nothing else changes with it.
pub proof fn the_reader_waits_for_the_commit(tee: &mut Tee, ready: bool, r: bool)
    requires
        call_ensures(Tee::finalize_polled, (tee, ready), r),
    ensures
        r == ready,
        ready ==> final(tee)@.state is Done,
        !ready ==> final(tee)@.state == old(tee)@.state,
        final(tee)@ == (TeeView { state: final(tee)@.state, ..old(tee)@ }),
{
}

/// Trailers are taken once.
pub proof fn trailers_are_taken_once(
    tee: &mut Tee,
    r: Option<trillium_http::Headers>,
)
    requires
        call_ensures(Tee::take_trailers, (tee,), r),
    ensures
        trailers_view(r) == old(tee)@.trailers,
        final(tee)@.trailers is None,
        final(tee)@ == (TeeView { trailers: None, ..old(tee)@ }),
{
}

/// Which steps can come: bytes and the end of the body while nothing is held and it has not ended,
/// held bytes while there are some, to the writer while it is live and past it once it is not, and
/// the commit while it is under way.
pub proof fn which_steps_can_come(view: TeeView, event: TeeEvent)
    ensures
        view.allows(event) <==> match event {
            TeeEvent::Chunk { bytes, poll } => {
                &&& bytes.len() > 0
                &&& view.held.len() == 0
                &&& view.state is Active || view.state is Aborted
                &&& view.state is Active && view.read.len() + bytes.len() <= view.cap ==> (
                poll matches WritePoll::Accepted(n) ==> n <= bytes.len())
            },
            TeeEvent::Held { poll } => {
                &&& view.held.len() > 0
                &&& view.state is Active
                &&& poll matches WritePoll::Accepted(n) ==> n <= view.held.len()
            },
            TeeEvent::Pass { count } => {
                &&& view.state is Aborted
                &&& 0 < count <= view.held.len()
            },
            TeeEvent::End { trailers } => {
                &&& view.held.len() == 0
                &&& view.state is Active || view.state is Aborted
            },
            TeeEvent::Commit { ready } => view.state is Finalizing,
            TeeEvent::TakeTrailers => true,
        },
{
}

/// A tee tells whether its writer is live, and what it holds.
pub proof fn tees_tell_what_they_hold(tee: &Tee, live: bool, held: &Vec<u8>)
    requires
        call_ensures(Tee::is_active, (tee,), live),
        call_ensures(Tee::held, (tee,), held),
    ensures
        live <==> tee@.state is Active,
        held@ == tee@.held,
{
}

/// A copy begins with no byte counted.
pub proof fn copies_begin_with_nothing(cap: u64, r: CappedCopy)
    requires
        call_ensures(CappedCopy::new, (cap,), r),
    ensures
        r.cap == cap,
        r.total == 0,
{
}

/// A copy counts the bytes that are added to it.
pub proof fn copies_count_their_bytes(copy: &mut CappedCopy, n: usize, r: bool)
    requires
        call_ensures(CappedCopy::add_bytes, (copy, n), r),
    ensures
        final(copy).cap == old(copy).cap,
        old(copy).total + n <= u64::MAX ==> final(copy).total == old(copy).total + n,
        old(copy).total + n > u64::MAX ==> final(copy).total == u64::MAX,
        r <==> final(copy).total <= final(copy).cap,
{
}

} // verus!
