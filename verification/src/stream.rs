//! Chunked writes and accumulated reads over one socket.
//!
//! A write is split into chunks of at most the module's per-command data
//! ceiling; each chunk travels as a `S3=<n>` announcement followed by the
//! data, with the chunk's first data byte folded into the announcement when
//! the announcement's length is odd, so the announcement always splits into
//! whole pairs. A read loops, asking for bounded slices and copying them
//! into the caller's buffer; a failure after at least one byte has been
//! delivered degrades into a short read instead of an error.

use vstd::prelude::*;
use crate::SocketError;
use crate::command::CR;
use crate::command::SEP;
use crate::command::dec_digits;
use crate::command::push_decimal;

verus! {

/// The most data bytes one write command may carry.
pub const WRITE_CHUNK_LIMIT: usize = 1200;

/// Framing overhead reserved out of the response buffer when asking the
/// module for a read: the payload asked for leaves this much room.
pub const READ_OVERHEAD: usize = 10;

/// Capacity of the response buffer a read drains into.
pub const READ_RESPONSE_CAP: usize = 1470;

/// How many chunks a write of `total` bytes issues.
pub open spec fn chunk_count(total: nat) -> int {
    (total + WRITE_CHUNK_LIMIT - 1) / (WRITE_CHUNK_LIMIT as int)
}

/// Sum of a sequence of chunk lengths.
pub open spec fn chunk_sum(s: Seq<usize>) -> int
    decreases s.len(),
{
    if s.len() == 0 {
        0
    } else {
        chunk_sum(s.drop_last()) + s.last()
    }
}

/// Appending a chunk adds its length to the sum.
proof fn lemma_chunk_sum_push(s: Seq<usize>, x: usize)
    ensures
        chunk_sum(s.push(x)) == chunk_sum(s) + x,
{
    assert(s.push(x).drop_last() =~= s);
    assert(s.push(x).last() == x);
}

/// The chunk lengths a write of `total` bytes issues, in order: every chunk
/// but the last is exactly the ceiling, the last carries the remainder, and
/// together they carry the whole payload.
pub fn chunk_plan(total: usize) -> (v: Vec<usize>)
    ensures
        v@.len() == chunk_count(total as nat),
        chunk_sum(v@) == total,
        forall|i: int| 0 <= i < v@.len() ==> 0 < #[trigger] v@[i] <= WRITE_CHUNK_LIMIT,
        forall|i: int| 0 <= i < v@.len() - 1 ==> #[trigger] v@[i] == WRITE_CHUNK_LIMIT,
        total > 0 ==> v@[v@.len() - 1] == total - WRITE_CHUNK_LIMIT * (v@.len() - 1),
{
    let mut v: Vec<usize> = Vec::new();
    let mut remaining: usize = total;
    while remaining > WRITE_CHUNK_LIMIT
        invariant
            remaining <= total,
            chunk_sum(v@) == total - remaining,
            v@.len() * WRITE_CHUNK_LIMIT == total - remaining,
            forall|i: int| 0 <= i < v@.len() ==> #[trigger] v@[i] == WRITE_CHUNK_LIMIT,
        decreases remaining,
    {
        let ghost prev = v@;
        v.push(WRITE_CHUNK_LIMIT);
        remaining = remaining - WRITE_CHUNK_LIMIT;
        proof {
            lemma_chunk_sum_push(prev, WRITE_CHUNK_LIMIT);
        }
    }
    proof {
        let k = v@.len() as int;
        if remaining == 0 {
            assert((k * WRITE_CHUNK_LIMIT + WRITE_CHUNK_LIMIT - 1) / (WRITE_CHUNK_LIMIT as int)
                == k) by (nonlinear_arith)
                requires
                    k >= 0,
            ;
        } else {
            assert((k * WRITE_CHUNK_LIMIT + remaining + WRITE_CHUNK_LIMIT - 1) / (
            WRITE_CHUNK_LIMIT as int) == k + 1) by (nonlinear_arith)
                requires
                    k >= 0,
                    0 < remaining <= WRITE_CHUNK_LIMIT,
            ;
        }
    }
    if remaining > 0 {
        let ghost prev = v@;
        v.push(remaining);
        proof {
            lemma_chunk_sum_push(prev, remaining);
        }
    }
    v
}

/// Bounds tying a write's chunk count to its payload length: the chunks
/// before the last cannot carry the whole payload, the full plan can.
proof fn lemma_chunk_count_bounds(total: nat)
    requires
        total > 0,
    ensures
        1 <= chunk_count(total),
        WRITE_CHUNK_LIMIT * (chunk_count(total) - 1) < total,
        total <= WRITE_CHUNK_LIMIT * chunk_count(total),
{
    let c = chunk_count(total);
    assert(c == (total + 1199) / 1200);
    assert(1 <= c && 1200 * (c - 1) < total && total <= 1200 * c) by (nonlinear_arith)
        requires
            c == (total + 1199) / 1200,
            total > 0,
    ;
}

/// The length of chunk `i` of a write of `total` bytes: the ceiling for
/// every chunk before the last, the remainder for the last.
pub open spec fn chunk_len_at(total: nat, i: int) -> int {
    if i < chunk_count(total) - 1 {
        WRITE_CHUNK_LIMIT as int
    } else {
        total - WRITE_CHUNK_LIMIT * (chunk_count(total) - 1)
    }
}

/// Whether the recorded responses acknowledge every chunk of a write of
/// `total` bytes with that chunk's own byte count.
pub open spec fn all_chunks_acked(total: nat, acks: Seq<Option<usize>>) -> bool {
    forall|i: int|
        0 <= i < chunk_count(total) ==> i < acks.len() && #[trigger] acks[i] == Some(
            chunk_len_at(total, i) as usize,
        )
}

/// Progress of one write call through its chunks.
pub struct WriteProgress {
    /// Total payload length of the write.
    pub total: usize,
    /// Bytes acknowledged by the module so far.
    pub sent: usize,
}

impl WriteProgress {
    /// Never more acknowledged than asked for.
    pub open spec fn wf(&self) -> bool {
        self.sent <= self.total
    }

    /// The length of the next chunk: the ceiling, or whatever remains.
    pub open spec fn spec_next_chunk(&self) -> int {
        if self.total - self.sent <= WRITE_CHUNK_LIMIT {
            self.total - self.sent
        } else {
            WRITE_CHUNK_LIMIT as int
        }
    }

    /// A fresh write of `total` bytes.
    pub fn begin(total: usize) -> (r: Self)
        ensures
            r.wf(),
            r.total == total,
            r.sent == 0,
    {
        WriteProgress { total, sent: 0 }
    }

    /// Whether the whole payload has been acknowledged.
    pub fn finished(&self) -> (r: bool)
        ensures
            r == (self.sent == self.total),
    {
        self.sent == self.total
    }

    /// The length of the next chunk to announce and send.
    pub fn next_chunk(&self) -> (n: usize)
        requires
            self.wf(),
        ensures
            n == self.spec_next_chunk(),
    {
        let remaining = self.total - self.sent;
        if remaining <= WRITE_CHUNK_LIMIT {
            remaining
        } else {
            WRITE_CHUNK_LIMIT
        }
    }

    /// Settles one chunk from the parsed response to its announcement. The
    /// write advances exactly when the response reports the chunk's own
    /// byte count; any other count, or an unparseable response, aborts the
    /// whole write with a write error.
    pub fn apply_ack(&mut self, ack: Option<usize>) -> (r: Result<(), SocketError>)
        requires
            old(self).wf(),
            old(self).sent < old(self).total,
        ensures
            final(self).wf(),
            final(self).total == old(self).total,
            match r {
                Ok(()) => {
                    &&& ack == Some(old(self).spec_next_chunk() as usize)
                    &&& final(self).sent == old(self).sent + old(self).spec_next_chunk()
                },
                Err(e) => {
                    &&& e == SocketError::WriteError
                    &&& ack != Some(old(self).spec_next_chunk() as usize)
                    &&& final(self).sent == old(self).sent
                },
            },
    {
        let expected = self.next_chunk();
        match ack {
            Some(n) => {
                if n == expected {
                    self.sent = self.sent + expected;
                    Ok(())
                } else {
                    Err(SocketError::WriteError)
                }
            },
            None => Err(SocketError::WriteError),
        }
    }
}

/// Replays a whole write against the recorded per-chunk responses: the
/// write succeeds, reporting the full payload length, exactly when every
/// chunk's response reports that chunk's own byte count; the first chunk
/// answered otherwise aborts the whole write with a write error.
pub fn run_write_session(total: usize, acks: &Vec<Option<usize>>) -> (r: Result<
    usize,
    SocketError,
>)
    ensures
        (r == Ok::<usize, SocketError>(total)) == all_chunks_acked(total as nat, acks@),
        r is Err ==> r == Err::<usize, SocketError>(SocketError::WriteError),
{
    let ghost count = chunk_count(total as nat);
    let mut progress = WriteProgress::begin(total);
    let mut i: usize = 0;
    while !progress.finished()
        invariant
            progress.wf(),
            progress.total == total,
            i as int <= count,
            count == chunk_count(total as nat),
            progress.sent == if (i as int) < count {
                WRITE_CHUNK_LIMIT * i
            } else {
                total as int
            },
            forall|j: int|
                0 <= j < i ==> j < acks@.len() && #[trigger] acks@[j] == Some(
                    chunk_len_at(total as nat, j) as usize,
                ),
        decreases total - progress.sent,
    {
        proof {
            lemma_chunk_count_bounds(total as nat);
            if i as int >= count {
                assert(progress.sent == total);
                assert(false);
            }
            if (i as int) < count - 1 {
                assert(WRITE_CHUNK_LIMIT * (i as int + 1) <= WRITE_CHUNK_LIMIT * (count - 1));
            }
            assert(progress.spec_next_chunk() == chunk_len_at(total as nat, i as int));
        }
        let ack = if i < acks.len() {
            acks[i]
        } else {
            None
        };
        match progress.apply_ack(ack) {
            Ok(()) => {
                i = i + 1;
            },
            Err(e) => {
                proof {
                    if all_chunks_acked(total as nat, acks@) {
                        assert(acks@[i as int] == Some(chunk_len_at(total as nat, i as int) as usize));
                        assert(false);
                    }
                }
                return Err(e);
            },
        }
    }
    proof {
        if total > 0 {
            lemma_chunk_count_bounds(total as nat);
            if (i as int) < count {
                assert(WRITE_CHUNK_LIMIT * (i as int) <= WRITE_CHUNK_LIMIT * (count - 1));
                assert(false);
            }
        }
        assert(i as int == count);
        assert forall|j: int| 0 <= j < chunk_count(total as nat) implies j < acks@.len()
            && #[trigger] acks@[j] == Some(chunk_len_at(total as nat, j) as usize) by {
            assert(0 <= j < i as int);
            assert(acks@[j] == Some(chunk_len_at(total as nat, j) as usize));
        }
    }
    Ok(total)
}

/// The announcement preceding a chunk of `n` data bytes: `S3=<n>` with its
/// terminator, before any pairing with data.
pub open spec fn write_announce_text(n: nat) -> Seq<u8> {
    seq![83u8, 51u8, SEP] + dec_digits(n) + seq![CR]
}

/// Builds the announcement frame for the chunk of `len` bytes starting at
/// `start`: the `S3=<len>` text, with the chunk's first data byte folded in
/// when the text's length is odd, so the frame splits into whole pairs.
/// Returns the frame and how many data bytes it swallowed.
pub fn frame_chunk(data: &Vec<u8>, start: usize, len: usize) -> (r: (Vec<u8>, usize))
    requires
        1 <= len <= WRITE_CHUNK_LIMIT,
        start + len <= data@.len(),
    ensures
        ({
            let (announce, skip) = r;
            &&& skip == write_announce_text(len as nat).len() % 2
            &&& announce@ == write_announce_text(len as nat) + data@.subrange(
                start as int,
                start + skip,
            )
            &&& announce@.len() % 2 == 0
            &&& skip <= len
        }),
{
    let mut announce: Vec<u8> = Vec::new();
    announce.push(83);
    announce.push(51);
    announce.push(SEP);
    push_decimal(&mut announce, len as u32);
    announce.push(CR);
    proof {
        assert(announce@ =~= write_announce_text(len as nat));
    }
    if announce.len() % 2 != 0 {
        announce.push(data[start]);
        proof {
            assert(announce@ =~= write_announce_text(len as nat) + data@.subrange(
                start as int,
                start as int + 1,
            ));
        }
        (announce, 1)
    } else {
        proof {
            assert(announce@ =~= write_announce_text(len as nat) + data@.subrange(
                start as int,
                start as int,
            ));
        }
        (announce, 0)
    }
}

/// Parsed outcome of one read iteration's response.
#[derive(Debug, PartialEq, Eq)]
pub enum ReadOutcome {
    /// The response carried this payload.
    Data(Vec<u8>),
    /// The module reported an explicit read error.
    Failed,
}

/// What a read loop does after one iteration.
#[derive(Debug, Clone, Copy, PartialEq, Eq, Structural)]
pub enum ReadStep {
    /// Keep reading, now this many bytes into the caller's buffer.
    More(usize),
    /// Return successfully with this many bytes delivered.
    Finished(usize),
    /// Fail the whole read with this error.
    Abort(SocketError),
}

/// How many payload bytes one read iteration asks the module for: bounded
/// by the remaining room in the caller's buffer and by the response
/// buffer's capacity less the framing overhead.
pub fn read_request_len(buf_len: usize, pos: usize) -> (n: usize)
    requires
        pos <= buf_len,
    ensures
        n == if buf_len - pos <= READ_RESPONSE_CAP - READ_OVERHEAD {
            buf_len - pos
        } else {
            (READ_RESPONSE_CAP - READ_OVERHEAD) as int
        },
{
    let room = buf_len - pos;
    if room <= READ_RESPONSE_CAP - READ_OVERHEAD {
        room
    } else {
        READ_RESPONSE_CAP - READ_OVERHEAD
    }
}

/// Settles one read iteration, `pos` bytes into the caller's buffer.
///
/// A payload that fits is copied in at `pos`, leaving every other byte
/// untouched; the read then goes on unless the payload was empty or the
/// buffer is full. A payload that would overrun the buffer, an explicit
/// error, or an unparseable response ends the read: as a hard error only
/// when nothing has been delivered yet, otherwise as a short read returning
/// the bytes already delivered — delivered data is never silently dropped.
pub fn apply_read_outcome(buf: &mut Vec<u8>, pos: usize, outcome: Option<ReadOutcome>) -> (r:
    ReadStep)
    requires
        pos <= old(buf)@.len(),
    ensures
        final(buf)@.len() == old(buf)@.len(),
        match outcome {
            Some(ReadOutcome::Data(d)) => {
                if pos + d@.len() <= old(buf)@.len() {
                    &&& final(buf)@ == old(buf)@.take(pos as int) + d@ + old(buf)@.skip(
                        pos + d@.len(),
                    )
                    &&& r == if d@.len() == 0 || pos + d@.len() == old(buf)@.len() {
                        ReadStep::Finished((pos + d@.len()) as usize)
                    } else {
                        ReadStep::More((pos + d@.len()) as usize)
                    }
                } else {
                    &&& final(buf)@ == old(buf)@
                    &&& r == if pos == 0 {
                        ReadStep::Abort(SocketError::ReadError)
                    } else {
                        ReadStep::Finished(pos)
                    }
                }
            },
            _ => {
                &&& final(buf)@ == old(buf)@
                &&& r == if pos == 0 {
                    ReadStep::Abort(SocketError::ReadError)
                } else {
                    ReadStep::Finished(pos)
                }
            },
        },
{
    match outcome {
        Some(ReadOutcome::Data(d)) => {
            if d.len() <= buf.len() - pos {
                let mut i: usize = 0;
                while i < d.len()
                    invariant
                        pos + d@.len() <= old(buf)@.len(),
                        old(buf)@.len() <= usize::MAX,
                        i <= d@.len(),
                        buf@.len() == old(buf)@.len(),
                        forall|j: int| 0 <= j < pos ==> buf@[j] == old(buf)@[j],
                        forall|j: int| 0 <= j < i ==> buf@[pos + j] == d@[j],
                        forall|j: int| pos + d@.len() <= j < buf@.len() ==> buf@[j] == old(
                            buf,
                        )@[j],
                    decreases d@.len() - i,
                {
                    buf.set(pos + i, d[i]);
                    i = i + 1;
                }
                proof {
                    assert(buf@ =~= old(buf)@.take(pos as int) + d@ + old(buf)@.skip(
                        pos + d@.len(),
                    ));
                }
                if d.len() == 0 || pos + d.len() == buf.len() {
                    ReadStep::Finished(pos + d.len())
                } else {
                    ReadStep::More(pos + d.len())
                }
            } else {
                if pos == 0 {
                    ReadStep::Abort(SocketError::ReadError)
                } else {
                    ReadStep::Finished(pos)
                }
            }
        },
        _ => {
            if pos == 0 {
                ReadStep::Abort(SocketError::ReadError)
            } else {
                ReadStep::Finished(pos)
            }
        },
    }
}

/// A whole read call replayed over the outcomes of its iterations, `pos`
/// bytes into a caller buffer holding `buf`: the final buffer contents and
/// the call's result. Running out of outcomes counts as an unparseable
/// response. Mirrors `apply_read_outcome` iteration by iteration.
pub open spec fn read_session_spec(
    buf: Seq<u8>,
    pos: int,
    events: Seq<Option<ReadOutcome>>,
) -> (Seq<u8>, Result<int, SocketError>)
    decreases events.len(),
{
    let stopped = if pos == 0 {
        (buf, Err::<int, SocketError>(SocketError::ReadError))
    } else {
        (buf, Ok::<int, SocketError>(pos))
    };
    if events.len() == 0 {
        stopped
    } else {
        match events.first() {
            Some(outcome) => match outcome {
                ReadOutcome::Data(d) => {
                    if pos + d@.len() <= buf.len() {
                        let filled = buf.take(pos) + d@ + buf.skip(pos + d@.len());
                        if d@.len() == 0 || pos + d@.len() == buf.len() {
                            (filled, Ok::<int, SocketError>(pos + d@.len()))
                        } else {
                            read_session_spec(filled, pos + d@.len(), events.drop_first())
                        }
                    } else {
                        stopped
                    }
                },
                ReadOutcome::Failed => stopped,
            },
            None => stopped,
        }
    }
}

/// Replays a whole read call against the recorded outcomes of its
/// iterations, filling the caller's buffer exactly as the per-iteration
/// decisions dictate: payloads are copied in order, the read ends at an
/// empty payload or a full buffer, and a failure ends it as a hard error
/// only when nothing has been delivered yet, as a short read otherwise.
/// Replays a whole read call against the recorded outcomes of its
/// iterations, filling the caller's buffer exactly as the per-iteration
/// decisions dictate: payloads are copied in order, the read ends at an
/// empty payload or a full buffer, and a failure ends it as a hard error
/// only when nothing has been delivered yet, as a short read otherwise.
pub fn run_read_session(buf: &mut Vec<u8>, events: Vec<Option<ReadOutcome>>) -> (r: Result<
    usize,
    SocketError,
>)
    ensures
        final(buf)@ == read_session_spec(old(buf)@, 0, events@).0,
        final(buf)@.len() == old(buf)@.len(),
        match r {
            Ok(n) => read_session_spec(old(buf)@, 0, events@).1 == Ok::<int, SocketError>(
                n as int,
            ),
            Err(e) => {
                &&& e == SocketError::ReadError
                &&& read_session_spec(old(buf)@, 0, events@).1 == Err::<int, SocketError>(
                    SocketError::ReadError,
                )
            },
        },
{
    let ghost target = read_session_spec(old(buf)@, 0, events@);
    let _buf_len: usize = buf.len();
    let mut pending = events;
    let mut pos: usize = 0;
    loop
        invariant
            pos <= buf@.len(),
            buf@.len() == old(buf)@.len(),
            buf@.len() <= usize::MAX,
            target == read_session_spec(old(buf)@, 0, events@),
            target == read_session_spec(buf@, pos as int, pending@),
        decreases pending@.len(),
    {
        if pending.len() == 0 {
            if pos == 0 {
                return Err(SocketError::ReadError);
            } else {
                return Ok(pos);
            }
        }
        let ghost before = pending@;
        let outcome = pending.remove(0);
        proof {
            assert(pending@ =~= before.drop_first());
            assert(outcome == before.first());
        }
        let step = apply_read_outcome(buf, pos, outcome);
        match step {
            ReadStep::More(next) => {
                pos = next;
            },
            ReadStep::Finished(n) => {
                return Ok(n);
            },
            ReadStep::Abort(e) => {
                return Err(e);
            },
        }
    }
}

} // verus!
