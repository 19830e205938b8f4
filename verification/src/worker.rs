//! The worker of one input stream, as a state machine.
//!
//! The worker performs no reads and no writes. Its caller reads from the
//! stream and reports what came (`on_bytes`, `on_end`, `on_failure`); the
//! worker answers with what to do next. When the answer is `Action::Write`,
//! the caller writes `payload()` to the sink as one unit and reports back
//! with `on_written`.

use vstd::prelude::*;
use crate::buffer::{ReadBuffer, MAX_CAPACITY, grown_capacity};
use crate::lines::{NEWLINE, count_of, complete_len, complete_part, remainder, extract_lines,
    lemma_complete_len, lemma_split, lemma_count_concat};
use crate::stream::{joined, total_count, normalized, line_total, pending_after, flushes, writes,
    lemma_push, law_output_is_normalized_input, law_line_count};

verus! {

/// Where a worker stands.
#[derive(Clone, Copy, Debug, PartialEq, Eq, Structural)]
pub enum Phase {
    /// Waiting for the next bytes of the stream; no whole line is pending.
    Reading,
    /// A block of whole lines is ready and waits to be written.
    Flushing,
    /// The stream has ended and its last line, completed with a terminator,
    /// waits to be written.
    Draining,
    /// Nothing more will be read or written.
    Terminated,
}

/// What the caller does next.
#[derive(Clone, Copy, Debug, PartialEq, Eq, Structural)]
pub enum Action {
    /// Read up to one chunk from the stream.
    Read,
    /// Write the payload to the sink as one unit.
    Write,
    /// Stop: the worker has terminated.
    Finish,
}

/// Which side of a worker failed.
#[derive(Clone, Copy, Debug, PartialEq, Eq, Structural)]
pub enum Failure {
    /// Reading the input stream failed.
    Read,
    /// Writing to the sink failed.
    Write,
}

/// What a terminated worker reports.
#[derive(Clone, Copy, Debug, PartialEq, Eq, Structural)]
pub enum Outcome {
    /// The number of lines written.
    Lines(usize),
    /// The failure that stopped the worker.
    Failed(Failure),
}

/// The state of one input stream's worker.
pub struct Worker {
    buffer: ReadBuffer,
    chunk_size: usize,
    lines: usize,
    phase: Phase,
    ready_len: usize,
    ready_lines: usize,
    failure: Option<Failure>,
    received: Ghost<Seq<Seq<u8>>>,
    written: Ghost<Seq<Seq<u8>>>,
}

impl Worker {
    /// The chunks that the stream has given so far, in order.
    pub closed spec fn received(&self) -> Seq<Seq<u8>> {
        self.received@
    }

    /// The blocks whose writing was reported so far, in order.
    pub closed spec fn written(&self) -> Seq<Seq<u8>> {
        self.written@
    }

    /// The phase the worker is in.
    pub closed spec fn spec_phase(&self) -> Phase {
        self.phase
    }

    /// The bytes that were taken in and not yet written out.
    pub closed spec fn pending(&self) -> Seq<u8> {
        self.buffer@
    }

    /// The block that waits to be written, in `Flushing` and `Draining`.
    pub closed spec fn spec_payload(&self) -> Seq<u8> {
        self.buffer@.subrange(0, self.ready_len as int)
    }

    /// The number of lines written so far.
    pub closed spec fn spec_lines(&self) -> usize {
        self.lines
    }

    /// The number of bytes asked for in one read.
    pub closed spec fn spec_chunk_size(&self) -> usize {
        self.chunk_size
    }

    /// The size of the buffer's storage.
    pub closed spec fn spec_capacity(&self) -> usize {
        self.buffer.spec_capacity()
    }

    /// The failure that was reported, if any.
    pub closed spec fn spec_failure(&self) -> Option<Failure> {
        self.failure
    }

    /// Room for another chunk can be made with `pending` bytes pending:
    /// either no growth is due then, or the buffer can grow by one step
    /// without passing `MAX_CAPACITY`.
    pub open spec fn room_after(&self, pending: int) -> bool {
        grown_capacity(self.spec_capacity() as int, pending, self.spec_chunk_size() as int)
            <= MAX_CAPACITY
    }

    /// The worker can take `chunk` in: it brings a terminator, so that the
    /// worker writes before it reads on, or room for another chunk can be
    /// made behind it.
    pub open spec fn spec_can_take(&self, chunk: Seq<u8>) -> bool {
        count_of(self.pending() + chunk, NEWLINE) == 0 ==> self.room_after(
            (self.pending().len() + chunk.len()) as int,
        )
    }

    /// Once the payload has left, the worker can go on: the stream has
    /// ended, or room for another chunk can be made behind what stays.
    pub open spec fn spec_can_flush(&self) -> bool {
        self.spec_phase() == Phase::Flushing ==> self.room_after(
            self.pending().len() - self.spec_payload().len(),
        )
    }

    /// What a terminated worker reports: its failure, or else its lines.
    pub open spec fn spec_outcome(&self) -> Outcome {
        match self.spec_failure() {
            Some(failure) => Outcome::Failed(failure),
            None => Outcome::Lines(self.spec_lines()),
        }
    }

    /// The worker's invariant. While reading, no terminator is pending and a
    /// whole chunk fits; what waits to be written is the whole lines at the
    /// front of the pending bytes, or at the end of the stream all of them.
    /// Throughout, what was written and what is pending are what the model
    /// of the stream says for the chunks received, and the lines counted are
    /// the terminators written.
    pub closed spec fn wf(&self) -> bool {
        &&& self.buffer.wf()
        &&& self.chunk_size > 0
        &&& self.failure is None ==> self.lines == total_count(self.written@)
        &&& match self.phase {
            Phase::Reading => {
                &&& self.buffer@ == pending_after(self.received@)
                &&& self.written@ == flushes(self.received@)
                &&& count_of(self.buffer@, NEWLINE) == 0
                &&& self.buffer.spec_capacity() - self.buffer.spec_pending_len() >= self.chunk_size
                &&& self.failure is None
            },
            Phase::Flushing => {
                &&& self.received@.len() > 0
                &&& self.buffer@ == pending_after(self.received@.drop_last())
                    + self.received@.last()
                &&& self.written@ == flushes(self.received@.drop_last())
                &&& count_of(self.buffer@, NEWLINE) > 0
                &&& self.ready_len == complete_len(self.buffer@, NEWLINE)
                &&& self.ready_lines == count_of(self.buffer@, NEWLINE)
                &&& self.failure is None
            },
            Phase::Draining => {
                &&& self.buffer@ == pending_after(self.received@).push(NEWLINE)
                &&& pending_after(self.received@).len() > 0
                &&& self.written@ == flushes(self.received@)
                &&& self.buffer@.len() > 0
                &&& self.buffer@.last() == NEWLINE
                &&& count_of(self.buffer@, NEWLINE) == 1
                &&& self.ready_len == self.buffer@.len()
                &&& self.ready_lines == 1
                &&& self.failure is None
            },
            Phase::Terminated => self.failure is None ==> self.written@ == writes(self.received@),
        }
    }

    /// What holds of a worker that terminated without a failure. The blocks
    /// it wrote are those of the model; one after the other they are the
    /// stream's bytes with the last line ended; and the lines it counted are
    /// the lines of the stream.
    pub proof fn lemma_terminated(&self)
        requires
            self.wf(),
            self.spec_phase() == Phase::Terminated,
            self.spec_failure() is None,
        ensures
            self.written() == writes(self.received()),
            joined(self.written()) == normalized(joined(self.received())),
            self.spec_lines() == line_total(joined(self.received())),
            self.spec_outcome() == Outcome::Lines(line_total(joined(self.received())) as usize),
    {
        law_output_is_normalized_input(self.received@);
        law_line_count(self.received@);
    }

    /// What holds while a worker works: the blocks written so far are those
    /// that the model writes while reading, and the lines counted are their
    /// terminators.
    pub proof fn lemma_progress(&self)
        requires
            self.wf(),
            self.spec_failure() is None,
        ensures
            self.spec_lines() == total_count(self.written()),
            self.spec_phase() == Phase::Reading ==> self.written() == flushes(self.received())
                && self.pending() == pending_after(self.received()),
            self.spec_phase() == Phase::Draining ==> self.written() == flushes(self.received())
                && self.pending() == pending_after(self.received()).push(NEWLINE),
    {
    }

    /// What the invariant says of each phase, over the public names.
    pub proof fn lemma_phase(&self)
        requires
            self.wf(),
        ensures
            self.spec_chunk_size() > 0,
            self.spec_phase() == Phase::Reading ==> count_of(self.pending(), NEWLINE) == 0
                && self.spec_failure() is None,
            self.spec_phase() == Phase::Flushing ==> self.spec_payload() == complete_part(
                self.pending(),
            ) && self.spec_payload().len() > 0 && self.spec_payload().last() == NEWLINE
                && self.spec_failure() is None,
            self.spec_phase() == Phase::Draining ==> self.spec_payload() == self.pending()
                && self.spec_payload().len() > 0 && self.spec_payload().last() == NEWLINE
                && count_of(self.spec_payload(), NEWLINE) == 1 && self.spec_failure() is None,
    {
        lemma_complete_len(self.buffer@, NEWLINE);
        if self.phase == Phase::Draining {
            assert(self.buffer@.subrange(0, self.buffer@.len() as int) =~= self.buffer@);
        }
    }

    /// A worker that waits for its first bytes, with room for one chunk.
    pub fn new(chunk_size: usize) -> (worker: Worker)
        requires
            0 < chunk_size <= MAX_CAPACITY,
        ensures
            worker.wf(),
            worker.spec_phase() == Phase::Reading,
            worker.pending() == Seq::<u8>::empty(),
            worker.spec_lines() == 0,
            worker.spec_chunk_size() == chunk_size,
            worker.spec_capacity() == chunk_size,
            worker.spec_failure() is None,
            worker.received() == Seq::<Seq<u8>>::empty(),
            worker.written() == Seq::<Seq<u8>>::empty(),
    {
        Worker {
            received: Ghost(Seq::empty()),
            written: Ghost(Seq::empty()),
            buffer: ReadBuffer::new(chunk_size),
            chunk_size,
            lines: 0,
            phase: Phase::Reading,
            ready_len: 0,
            ready_lines: 0,
            failure: None,
        }
    }

    /// The phase the worker is in.
    #[verifier::when_used_as_spec(spec_phase)]
    pub fn phase(&self) -> (phase: Phase)
        ensures
            phase == self.spec_phase(),
    {
        self.phase
    }

    /// The number of lines written so far.
    #[verifier::when_used_as_spec(spec_lines)]
    pub fn lines(&self) -> (n: usize)
        ensures
            n == self.spec_lines(),
    {
        self.lines
    }

    /// The number of bytes to ask for in one read.
    #[verifier::when_used_as_spec(spec_chunk_size)]
    pub fn chunk_size(&self) -> (n: usize)
        ensures
            n == self.spec_chunk_size(),
    {
        self.chunk_size
    }

    /// The size of the buffer's storage.
    #[verifier::when_used_as_spec(spec_capacity)]
    pub fn capacity(&self) -> (n: usize)
        ensures
            n == self.spec_capacity(),
    {
        self.buffer.capacity()
    }

    /// The number of pending bytes.
    pub fn pending_len(&self) -> (n: usize)
        requires
            self.wf(),
        ensures
            n == self.pending().len(),
    {
        proof {
            self.buffer.lemma_len();
        }
        self.buffer.pending_len()
    }

    /// Whether the worker can take `chunk` in.
    pub fn can_take(&self, chunk: &[u8]) -> (yes: bool)
        requires
            self.wf(),
            self.spec_phase() == Phase::Reading,
            chunk@.len() <= self.spec_chunk_size(),
        ensures
            yes == self.spec_can_take(chunk@),
    {
        proof {
            self.buffer.lemma_len();
            lemma_count_concat(self.buffer@, chunk@, NEWLINE);
        }
        let pending: usize = self.buffer.pending_len() + chunk.len();
        if self.buffer.fits_after(pending, self.chunk_size) {
            true
        } else {
            extract_lines(chunk).lines > 0
        }
    }

    /// Whether the worker can go on once the payload has been written.
    pub fn can_flush(&self) -> (yes: bool)
        requires
            self.wf(),
            self.spec_phase() == Phase::Flushing || self.spec_phase() == Phase::Draining,
        ensures
            yes == self.spec_can_flush(),
    {
        proof {
            self.buffer.lemma_len();
            lemma_complete_len(self.buffer@, NEWLINE);
        }
        match self.phase {
            Phase::Flushing => self.buffer.fits_after(
                self.buffer.pending_len() - self.ready_len,
                self.chunk_size,
            ),
            _ => true,
        }
    }

    /// The block to write, as one unit.
    pub fn payload(&self) -> (bytes: &[u8])
        requires
            self.wf(),
            self.spec_phase() == Phase::Flushing || self.spec_phase() == Phase::Draining,
        ensures
            bytes@ == self.spec_payload(),
    {
        proof {
            self.buffer.lemma_len();
            lemma_complete_len(self.buffer@, NEWLINE);
        }
        vstd::slice::slice_subrange(self.buffer.pending(), 0, self.ready_len)
    }

    /// The number of lines in the block to write.
    pub fn payload_lines(&self) -> (n: usize)
        requires
            self.wf(),
            self.spec_phase() == Phase::Flushing || self.spec_phase() == Phase::Draining,
        ensures
            n == count_of(self.spec_payload(), NEWLINE),
    {
        proof {
            lemma_split(self.buffer@);
            self.lemma_phase();
        }
        self.ready_lines
    }

    /// The stream gave `chunk`.
    ///
    /// The bytes join the pending ones. Where these now hold a terminator,
    /// everything up to the last terminator becomes the payload and the
    /// answer is `Write`; where they hold none, the worker keeps collecting,
    /// makes room for another chunk, and the answer is `Read`.
    pub fn on_bytes(&mut self, chunk: &[u8]) -> (action: Action)
        requires
            old(self).wf(),
            old(self).spec_phase() == Phase::Reading,
            chunk@.len() <= old(self).spec_chunk_size(),
            old(self).spec_can_take(chunk@),
        ensures
            final(self).wf(),
            final(self).pending() == old(self).pending() + chunk@,
            final(self).received() == old(self).received().push(chunk@),
            final(self).written() == old(self).written(),
            final(self).spec_lines() == old(self).spec_lines(),
            final(self).spec_chunk_size() == old(self).spec_chunk_size(),
            final(self).spec_failure() is None,
            count_of(final(self).pending(), NEWLINE) == 0 ==> {
                &&& action == Action::Read
                &&& final(self).spec_phase() == Phase::Reading
                &&& final(self).spec_capacity() == grown_capacity(
                    old(self).spec_capacity() as int,
                    final(self).pending().len() as int,
                    old(self).spec_chunk_size() as int,
                )
            },
            count_of(final(self).pending(), NEWLINE) > 0 ==> {
                &&& action == Action::Write
                &&& final(self).spec_phase() == Phase::Flushing
                &&& final(self).spec_payload() == complete_part(final(self).pending())
                &&& final(self).spec_payload().len() > 0
                &&& final(self).spec_payload().last() == NEWLINE
                &&& final(self).spec_capacity() == old(self).spec_capacity()
            },
    {
        self.buffer.append(chunk);
        self.received = Ghost(self.received@.push(chunk@));
        let found = extract_lines(self.buffer.pending());
        proof {
            self.buffer.lemma_len();
            lemma_complete_len(self.buffer@, NEWLINE);
            lemma_split(self.buffer@);
            assert(self.received@.drop_last() =~= old(self).received@);
            assert(remainder(self.buffer@) =~= self.buffer@ <== count_of(self.buffer@, NEWLINE)
                == 0);
        }
        match found.end {
            None => {
                self.buffer.ensure_capacity(self.chunk_size);
                Action::Read
            },
            Some(end) => {
                self.ready_len = end;
                self.ready_lines = found.lines;
                self.phase = Phase::Flushing;
                Action::Write
            },
        }
    }

    /// The stream has ended.
    ///
    /// Where bytes are pending, they are a last line without a terminator:
    /// a terminator is put behind them, the line becomes the payload and the
    /// answer is `Write`. Where nothing is pending the worker terminates.
    pub fn on_end(&mut self) -> (action: Action)
        requires
            old(self).wf(),
            old(self).spec_phase() == Phase::Reading,
        ensures
            final(self).wf(),
            final(self).spec_lines() == old(self).spec_lines(),
            final(self).spec_chunk_size() == old(self).spec_chunk_size(),
            final(self).spec_failure() is None,
            final(self).spec_capacity() == old(self).spec_capacity(),
            final(self).received() == old(self).received(),
            final(self).written() == old(self).written(),
            old(self).pending().len() == 0 ==> {
                &&& action == Action::Finish
                &&& final(self).spec_phase() == Phase::Terminated
                &&& final(self).pending() == old(self).pending()
            },
            old(self).pending().len() > 0 ==> {
                &&& action == Action::Write
                &&& final(self).spec_phase() == Phase::Draining
                &&& final(self).pending() == old(self).pending().push(NEWLINE)
                &&& final(self).spec_payload() == old(self).pending().push(NEWLINE)
                &&& count_of(final(self).spec_payload(), NEWLINE) == 1
            },
    {
        proof {
            self.buffer.lemma_len();
        }
        let len: usize = self.buffer.pending_len();
        if len == 0 {
            self.phase = Phase::Terminated;
            Action::Finish
        } else {
            self.buffer.push(NEWLINE);
            self.ready_len = len + 1;
            self.ready_lines = 1;
            self.phase = Phase::Draining;
            proof {
                let line = old(self).buffer@.push(NEWLINE);
                assert(line.drop_last() =~= old(self).buffer@);
                assert(line.subrange(0, line.len() as int) =~= line);
            }
            Action::Write
        }
    }

    /// The payload was written, whole.
    ///
    /// Its lines are counted and its bytes leave the buffer. After a block
    /// of lines the worker makes room for another chunk and reads on; after
    /// the last line of the stream it terminates.
    pub fn on_written(&mut self) -> (action: Action)
        requires
            old(self).wf(),
            old(self).spec_phase() == Phase::Flushing || old(self).spec_phase() == Phase::Draining,
            old(self).spec_lines() + count_of(old(self).spec_payload(), NEWLINE) <= usize::MAX,
            old(self).spec_can_flush(),
        ensures
            final(self).wf(),
            final(self).spec_lines() == old(self).spec_lines() + count_of(
                old(self).spec_payload(),
                NEWLINE,
            ),
            final(self).spec_chunk_size() == old(self).spec_chunk_size(),
            final(self).spec_failure() is None,
            final(self).received() == old(self).received(),
            final(self).written() == old(self).written().push(old(self).spec_payload()),
            final(self).pending() == old(self).pending().subrange(
                old(self).spec_payload().len() as int,
                old(self).pending().len() as int,
            ),
            old(self).spec_phase() == Phase::Flushing ==> {
                &&& action == Action::Read
                &&& final(self).spec_phase() == Phase::Reading
                &&& final(self).pending() == remainder(old(self).pending())
                &&& final(self).spec_capacity() == grown_capacity(
                    old(self).spec_capacity() as int,
                    final(self).pending().len() as int,
                    old(self).spec_chunk_size() as int,
                )
            },
            old(self).spec_phase() == Phase::Draining ==> {
                &&& action == Action::Finish
                &&& final(self).spec_phase() == Phase::Terminated
                &&& final(self).pending() == Seq::<u8>::empty()
                &&& final(self).spec_capacity() == old(self).spec_capacity()
            },
    {
        proof {
            self.buffer.lemma_len();
            self.lemma_phase();
            lemma_split(self.buffer@);
            lemma_complete_len(self.buffer@, NEWLINE);
        }
        proof {
            lemma_push(self.written@, self.spec_payload());
        }
        self.lines = self.lines + self.ready_lines;
        self.written = Ghost(self.written@.push(self.spec_payload()));
        self.buffer.consume(self.ready_len);
        self.ready_len = 0;
        self.ready_lines = 0;
        match self.phase {
            Phase::Flushing => {
                self.buffer.ensure_capacity(self.chunk_size);
                self.phase = Phase::Reading;
                Action::Read
            },
            _ => {
                proof {
                    assert(self.buffer@ =~= Seq::<u8>::empty());
                }
                self.phase = Phase::Terminated;
                Action::Finish
            },
        }
    }

    /// A read or a write failed. The worker terminates at once: what is
    /// pending is not written, and the failure is what it reports.
    pub fn on_failure(&mut self, failure: Failure)
        requires
            old(self).wf(),
            old(self).spec_phase() != Phase::Terminated,
        ensures
            final(self).wf(),
            final(self).spec_phase() == Phase::Terminated,
            final(self).spec_failure() == Some(failure),
            final(self).spec_lines() == old(self).spec_lines(),
            final(self).spec_chunk_size() == old(self).spec_chunk_size(),
            final(self).pending() == old(self).pending(),
            final(self).spec_capacity() == old(self).spec_capacity(),
            final(self).received() == old(self).received(),
            final(self).written() == old(self).written(),
    {
        self.failure = Some(failure);
        self.phase = Phase::Terminated;
    }

    /// What the terminated worker reports: the failure that stopped it, or
    /// the number of lines it wrote.
    pub fn outcome(&self) -> (outcome: Outcome)
        requires
            self.spec_phase() == Phase::Terminated,
        ensures
            outcome == self.spec_outcome(),
    {
        match self.failure {
            Some(failure) => Outcome::Failed(failure),
            None => Outcome::Lines(self.lines),
        }
    }
}

} // verus!
