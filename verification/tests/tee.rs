//! Teeing, step by step and over whole bodies.
use trillium_cache::tee::{AtEnd, CappedCopy, Give, Next, OnChunk, Tee, WritePoll};
use trillium_http::Headers;

/// A writer whose answers are fixed: each is taken in turn, and the last one stays.
struct Script {
    answers: Vec<WritePoll>,
    asked: usize,
    largest_offer: usize,
    stored: Vec<u8>,
}

impl Script {
    fn new(answers: Vec<WritePoll>) -> Self {
        Script {
            answers,
            asked: 0,
            largest_offer: 0,
            stored: Vec::new(),
        }
    }

    fn offer(&mut self, bytes: &[u8]) -> WritePoll {
        let answer = self.answers[self.asked.min(self.answers.len() - 1)];
        self.asked += 1;
        self.largest_offer = self.largest_offer.max(self.stored.len() + bytes.len());
        match answer {
            WritePoll::Accepted(n) => {
                let n = n.min(bytes.len());
                self.stored.extend_from_slice(&bytes[..n]);
                WritePoll::Accepted(n)
            }
            other => other,
        }
    }
}

/// Ends a body without trailers.
fn commits_at_end(tee: &mut Tee) -> bool {
    match tee.ended(None) {
        AtEnd::Commit { trailers } => {
            assert!(trailers.is_none());
            true
        }
        AtEnd::Pass => false,
    }
}

/// Reads chunks through a tee with a buffer of four bytes. Returns what the reader got, whether a
/// commit was started, and how often the reader waited.
fn run(cap: u64, chunks: &[&[u8]], writer: &mut Script) -> (Vec<u8>, usize, usize) {
    let mut tee = Tee::new(cap);
    let mut body = chunks.iter();
    let (mut got, mut commits, mut waits) = (Vec::new(), 0, 0);
    loop {
        let mut buf = [0u8; 4];
        match tee.next() {
            Next::End => return (got, commits, waits),
            Next::PollFinalize => {
                assert!(tee.finalize_polled(true));
            }
            Next::PassHeld => {
                let n = tee.pass_held(&mut buf);
                got.extend_from_slice(&buf[..n]);
            }
            Next::WriteHeld => {
                let room = tee.held().len().min(buf.len());
                let poll = writer.offer(&tee.held()[..room]);
                match tee.held_polled(poll, &mut buf) {
                    Give::Bytes(n) => got.extend_from_slice(&buf[..n]),
                    Give::Wait => waits += 1,
                    Give::Again => {}
                }
            }
            Next::Read => match body.next() {
                None => {
                    if commits_at_end(&mut tee) {
                        commits += 1;
                        assert_eq!(writer.stored, got);
                    }
                }
                Some(chunk) => {
                    let poll = match tee.chunk_read(chunk.len()) {
                        OnChunk::Write => writer.offer(chunk),
                        OnChunk::DropWriter | OnChunk::PassOn => WritePoll::Failed,
                    };
                    match tee.chunk_polled(chunk, poll) {
                        Give::Bytes(n) => got.extend_from_slice(&chunk[..n]),
                        Give::Wait => waits += 1,
                        Give::Again => unreachable!(),
                    }
                }
            },
        }
        if tee.is_active() {
            assert_eq!(writer.stored, got);
        }
    }
}

#[test]
fn bytes_that_the_writer_takes_are_committed() {
    let mut tee = Tee::new(10);
    assert!(tee.is_active());
    assert_eq!(tee.next(), Next::Read);
    assert_eq!(tee.chunk_read(6), OnChunk::Write);
    assert_eq!(tee.chunk_polled(b"abcdef", WritePoll::Accepted(6)), Give::Bytes(6));
    assert!(tee.held().is_empty());
    assert_eq!(tee.chunk_read(4), OnChunk::Write);
    assert_eq!(tee.chunk_polled(b"ghij", WritePoll::Accepted(4)), Give::Bytes(4));
    assert!(commits_at_end(&mut tee));
    assert_eq!(tee.next(), Next::PollFinalize);
    assert!(!tee.finalize_polled(false));
    assert_eq!(tee.next(), Next::PollFinalize);
    assert!(tee.finalize_polled(true));
    assert_eq!(tee.next(), Next::End);
}

#[test]
fn the_reader_waits_for_a_slow_writer() {
    let mut tee = Tee::new(100);
    let mut buf = [0u8; 2];
    assert_eq!(tee.chunk_read(5), OnChunk::Write);
    assert_eq!(tee.chunk_polled(b"abcde", WritePoll::Pending), Give::Wait);
    assert_eq!(tee.held(), b"abcde");
    assert_eq!(tee.next(), Next::WriteHeld);
    assert_eq!(tee.held_polled(WritePoll::Pending, &mut buf), Give::Wait);
    assert_eq!(tee.held(), b"abcde");
    assert_eq!(buf, [0, 0]);
    assert_eq!(tee.held_polled(WritePoll::Accepted(2), &mut buf), Give::Bytes(2));
    assert_eq!(&buf, b"ab");
    assert_eq!(tee.held(), b"cde");
}

#[test]
fn bytes_that_the_writer_leaves_are_offered_again() {
    let mut tee = Tee::new(100);
    let mut buf = [7u8; 4];
    assert_eq!(tee.chunk_read(5), OnChunk::Write);
    assert_eq!(tee.chunk_polled(b"abcde", WritePoll::Accepted(2)), Give::Bytes(2));
    assert_eq!(tee.held(), b"cde");
    assert_eq!(tee.next(), Next::WriteHeld);
    assert_eq!(tee.held_polled(WritePoll::Accepted(1), &mut buf), Give::Bytes(1));
    assert_eq!(buf, [b'c', 7, 7, 7]);
    assert_eq!(tee.held_polled(WritePoll::Accepted(2), &mut buf), Give::Bytes(2));
    assert_eq!(buf, [b'd', b'e', 7, 7]);
    assert_eq!(tee.next(), Next::Read);
}

#[test]
fn a_body_over_the_cap_is_passed_on() {
    let mut tee = Tee::new(5);
    assert_eq!(tee.chunk_read(5), OnChunk::Write);
    assert_eq!(tee.chunk_polled(b"abcde", WritePoll::Accepted(5)), Give::Bytes(5));
    assert_eq!(tee.chunk_read(1), OnChunk::DropWriter);
    assert_eq!(tee.chunk_polled(b"f", WritePoll::Failed), Give::Bytes(1));
    assert!(!tee.is_active());
    assert_eq!(tee.next(), Next::Read);
    assert_eq!(tee.chunk_read(1), OnChunk::PassOn);
    assert_eq!(tee.chunk_polled(b"g", WritePoll::Failed), Give::Bytes(1));
    assert!(!commits_at_end(&mut tee));
    assert_eq!(tee.next(), Next::End);
}

#[test]
fn a_writer_that_fails_is_dropped() {
    for poll in [WritePoll::Failed, WritePoll::Accepted(0)] {
        let mut tee = Tee::new(100);
        assert_eq!(tee.chunk_read(3), OnChunk::Write);
        assert_eq!(tee.chunk_polled(b"abc", poll), Give::Bytes(3));
        assert!(!tee.is_active());
        assert_eq!(tee.next(), Next::Read);

        let mut tee = Tee::new(100);
        let mut buf = [0u8; 2];
        assert_eq!(tee.chunk_polled(b"abc", WritePoll::Pending), Give::Wait);
        assert_eq!(tee.held_polled(poll, &mut buf), Give::Again);
        assert!(!tee.is_active());
        assert_eq!(tee.next(), Next::PassHeld);
        assert_eq!(tee.pass_held(&mut buf), 2);
        assert_eq!(&buf, b"ab");
        assert_eq!(tee.pass_held(&mut buf), 1);
        assert_eq!(buf[0], b'c');
        assert_eq!(tee.next(), Next::Read);
        assert!(!commits_at_end(&mut tee));
    }
}

#[test]
fn whole_bodies_within_the_cap_are_committed_once() {
    let chunks: [&[u8]; 3] = [b"hello ", b"slow ", b"world"];
    for answers in [
        vec![WritePoll::Accepted(100)],
        vec![WritePoll::Accepted(1)],
        vec![WritePoll::Pending, WritePoll::Pending, WritePoll::Accepted(3)],
    ] {
        let mut writer = Script::new(answers);
        let (got, commits, _) = run(16, &chunks, &mut writer);
        assert_eq!(got, b"hello slow world");
        assert_eq!(writer.stored, b"hello slow world");
        assert_eq!(commits, 1);
    }
    let mut slow = Script::new(vec![WritePoll::Pending, WritePoll::Pending, WritePoll::Accepted(3)]);
    assert_eq!(run(16, &chunks, &mut slow).2, 2);
    let mut none = Script::new(vec![WritePoll::Accepted(1)]);
    assert_eq!(run(0, &[], &mut none), (Vec::new(), 1, 0));
}

#[test]
fn whole_bodies_over_the_cap_are_never_committed() {
    let chunks: [&[u8]; 3] = [b"hello ", b"slow ", b"world"];
    for cap in 0..16 {
        let mut writer = Script::new(vec![WritePoll::Pending, WritePoll::Accepted(2)]);
        let (got, commits, _) = run(cap, &chunks, &mut writer);
        assert_eq!(got, b"hello slow world");
        assert_eq!(commits, 0);
        assert!(writer.largest_offer as u64 <= cap);
    }
}

#[test]
fn the_reader_gets_the_body_of_a_broken_writer() {
    let chunks: [&[u8]; 3] = [b"hello ", b"slow ", b"world"];
    for failure in [WritePoll::Failed, WritePoll::Accepted(0)] {
        for before in 0..6 {
            let mut answers = vec![WritePoll::Accepted(2); before];
            answers.push(WritePoll::Pending);
            answers.push(failure);
            let mut writer = Script::new(answers);
            let (got, commits, waits) = run(100, &chunks, &mut writer);
            assert_eq!(got, b"hello slow world");
            assert_eq!((commits, waits), (0, 1));
            assert_eq!(writer.stored, got[..2 * before]);
        }
    }
}

#[test]
fn trailers_reach_the_reader_and_the_store() {
    let mut trailers = Headers::new();
    trailers.insert("x-sum", "abc");

    let mut stored = Tee::new(10);
    assert!(stored.take_trailers().is_none());
    assert_eq!(stored.chunk_polled(b"abc", WritePoll::Accepted(3)), Give::Bytes(3));
    match stored.ended(Some(trailers.clone())) {
        AtEnd::Commit { trailers } => {
            assert_eq!(trailers.unwrap().get_str("x-sum"), Some("abc"));
        }
        AtEnd::Pass => panic!("the body is within the cap"),
    }
    assert_eq!(stored.take_trailers().unwrap().get_str("x-sum"), Some("abc"));
    assert!(stored.take_trailers().is_none());

    let mut passed = Tee::new(2);
    assert_eq!(passed.chunk_polled(b"abc", WritePoll::Failed), Give::Bytes(3));
    assert!(matches!(passed.ended(Some(trailers)), AtEnd::Pass));
    assert_eq!(passed.take_trailers().unwrap().get_str("x-sum"), Some("abc"));
}

#[test]
fn copies_stop_over_their_cap() {
    let mut copy = CappedCopy::new(10);
    assert!(copy.add_bytes(10));
    assert!(!copy.add_bytes(1));
    assert_eq!(copy.total, 11);
    let mut endless = CappedCopy::new(u64::MAX);
    assert!(endless.add_bytes(usize::MAX));
    assert!(endless.add_bytes(usize::MAX));
    assert_eq!(endless.total, u64::MAX);
    assert!(CappedCopy::new(0).add_bytes(0));
}
