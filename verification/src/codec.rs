//! Byte-pair framing for the module's half-duplex link.
//!
//! The module exchanges data strictly in two-byte units. Within each pair the
//! second byte travels first (a byte-order inversion its internal bus
//! requires), a lone trailing byte is paired with a fixed pad byte, and a
//! reserved NAK filler byte stands in when no real data is available. This
//! module holds the pure framing logic: padding a command to even length,
//! swapping pairs into (and back out of) wire order, and draining a response
//! two bytes at a time while filtering NAK fillers.

use vstd::prelude::*;

verus! {

/// Reserved filler byte the module sends or expects when no real data is
/// available; it is filtered out of drained responses, never stored.
pub const NAK: u8 = 0x15;

/// Pad byte used to complete a lone trailing byte into a full pair.
pub const PAD_BYTE: u8 = 0x0A;

/// A sequence extended with the pad byte when its length is odd, so that it
/// splits into whole pairs.
pub open spec fn padded(s: Seq<u8>) -> Seq<u8> {
    if s.len() % 2 == 0 {
        s
    } else {
        s.push(PAD_BYTE)
    }
}

/// The two bytes of every pair exchanged, for an even-length sequence.
pub open spec fn pair_swapped(s: Seq<u8>) -> Seq<u8>
    recommends
        s.len() % 2 == 0,
{
    Seq::new(
        s.len(),
        |i: int|
            if i % 2 == 0 {
                s[i + 1]
            } else {
                s[i - 1]
            },
    )
}

/// The byte stream a command produces on the wire: padded to whole pairs,
/// then each pair inverted.
pub open spec fn wire_order(s: Seq<u8>) -> Seq<u8> {
    pair_swapped(padded(s))
}

/// Swapping the bytes of each pair is its own inverse: applying the
/// two-byte swap twice to an even-length sequence yields the original
/// byte order.
pub proof fn lemma_pair_swap_self_inverse(s: Seq<u8>)
    requires
        s.len() % 2 == 0,
    ensures
        pair_swapped(pair_swapped(s)) == s,
{
    assert(pair_swapped(pair_swapped(s)) =~= s);
}

/// Appends the pad byte when the buffer's length is odd, leaving it ready to
/// split into whole pairs.
pub fn pad_to_even(cmd: &mut Vec<u8>)
    ensures
        final(cmd)@ == padded(old(cmd)@),
        final(cmd)@.len() % 2 == 0,
{
    if cmd.len() % 2 != 0 {
        cmd.push(PAD_BYTE);
    }
}

/// Swaps the two bytes of every pair of an even-length buffer.
pub fn pair_swap(data: &Vec<u8>) -> (r: Vec<u8>)
    requires
        data@.len() % 2 == 0,
    ensures
        r@ == pair_swapped(data@),
{
    let mut r: Vec<u8> = Vec::new();
    let mut i: usize = 0;
    while i < data.len()
        invariant
            data@.len() % 2 == 0,
            i % 2 == 0,
            i <= data@.len(),
            r@.len() == i,
            forall|j: int| 0 <= j < i ==> r@[j] == pair_swapped(data@)[j],
        decreases data@.len() - i,
    {
        assert(i + 1 < data@.len());
        r.push(data[i + 1]);
        r.push(data[i]);
        i = i + 2;
    }
    assert(r@ =~= pair_swapped(data@));
    r
}

/// Turns a command into the exact byte stream sent on the wire: padded to
/// even length, then every pair inverted. The result always has even
/// length, as the protocol requires of every transfer.
pub fn encode_for_wire(cmd: Vec<u8>) -> (r: Vec<u8>)
    ensures
        r@ == wire_order(cmd@),
        r@.len() % 2 == 0,
        r@.len() == padded(cmd@).len(),
{
    let mut cmd = cmd;
    pad_to_even(&mut cmd);
    pair_swap(&cmd)
}

/// Holds when no byte of the sequence is the NAK filler.
pub open spec fn nak_free(s: Seq<u8>) -> bool {
    forall|i: int| 0 <= i < s.len() ==> s[i] != NAK
}

/// The bytes one exchanged pair contributes to a drained response, in
/// reconstructed stream order (second byte of the pair first), with NAK
/// fillers left out.
pub open spec fn pair_payload(first: u8, second: u8) -> Seq<u8> {
    let s = if second == NAK {
        Seq::<u8>::empty()
    } else {
        seq![second]
    };
    if first == NAK {
        s
    } else {
        s.push(first)
    }
}

/// A sequence cut down to at most `room` elements.
pub open spec fn clipped(s: Seq<u8>, room: nat) -> Seq<u8> {
    if s.len() <= room {
        s
    } else {
        s.take(room as int)
    }
}

/// A response being drained from the link into a fixed-capacity buffer, two
/// bytes at a time.
///
/// The caller performs one two-byte exchange per step and hands over the pair
/// together with the ready-line level sampled right after the exchange; the
/// drain decides what is stored and whether another exchange should follow.
/// Its meaningful content is always the filled prefix, never the whole
/// buffer.
pub struct ResponseDrain {
    /// Bytes stored so far, in reconstructed stream order.
    pub buf: Vec<u8>,
    /// Capacity of the response buffer being filled.
    pub cap: usize,
}

impl ResponseDrain {
    /// The drained bytes never exceed the capacity and never contain the
    /// NAK filler.
    pub open spec fn wf(&self) -> bool {
        self.buf@.len() <= self.cap && nak_free(self.buf@)
    }

    /// An empty drain for a buffer of the given capacity.
    pub fn new(cap: usize) -> (r: Self)
        ensures
            r.wf(),
            r.buf@ == Seq::<u8>::empty(),
            r.cap == cap,
    {
        ResponseDrain { buf: Vec::new(), cap }
    }

    /// Whether buffer space remains for another exchange.
    pub fn wants_more(&self) -> (r: bool)
        ensures
            r == (self.buf@.len() < self.cap),
    {
        self.buf.len() < self.cap
    }

    /// Records one exchanged pair, as received on the wire (`first` then
    /// `second`), storing its payload in stream order with NAK fillers
    /// filtered out and the capacity respected. Returns whether the drain
    /// should continue: only while the ready line was still asserted after
    /// the exchange and space remains.
    pub fn step(&mut self, first: u8, second: u8, ready_after: bool) -> (more: bool)
        requires
            old(self).wf(),
        ensures
            final(self).wf(),
            final(self).cap == old(self).cap,
            final(self).buf@ == old(self).buf@ + clipped(
                pair_payload(first, second),
                (old(self).cap - old(self).buf@.len()) as nat,
            ),
            more == (ready_after && final(self).buf@.len() < final(self).cap),
    {
        if second != NAK && self.buf.len() < self.cap {
            self.buf.push(second);
        }
        if first != NAK && self.buf.len() < self.cap {
            self.buf.push(first);
        }
        proof {
            assert(self.buf@ =~= old(self).buf@ + clipped(
                pair_payload(first, second),
                (old(self).cap - old(self).buf@.len()) as nat,
            ));
        }
        ready_after && self.buf.len() < self.cap
    }

    /// Hands out the filled prefix. Its length never exceeds the capacity
    /// the drain was made with, and no NAK byte appears in it.
    pub fn into_bytes(self) -> (r: Vec<u8>)
        requires
            self.wf(),
        ensures
            r@ == self.buf@,
            r@.len() <= self.cap,
            nak_free(r@),
    {
        self.buf
    }
}

/// The shell banner the module prints when it comes up ready: `\r\n> `.
pub open spec fn banner_prefix() -> Seq<u8> {
    seq![13u8, 10u8, 62u8, 32u8]
}

/// Whether a drained boot response starts with the shell banner. A missing
/// banner is treated as best effort by the boot sequence, not as fatal.
pub fn banner_seen(bytes: &Vec<u8>) -> (r: bool)
    ensures
        r == (bytes@.len() >= 4 && bytes@.take(4) == banner_prefix()),
{
    let ok = bytes.len() >= 4 && bytes[0] == 13 && bytes[1] == 10 && bytes[2] == 62 && bytes[3]
        == 32;
    proof {
        if bytes@.len() >= 4 {
            if bytes@[0] == 13 && bytes@[1] == 10 && bytes@[2] == 62 && bytes@[3] == 32 {
                assert(bytes@.take(4) =~= banner_prefix());
            } else {
                assert(bytes@.take(4) != banner_prefix()) by {
                    if bytes@.take(4) == banner_prefix() {
                        assert(bytes@[0] == 13 && bytes@[1] == 10 && bytes@[2] == 62 && bytes@[3]
                            == 32);
                    }
                }
            }
        }
    }
    ok
}

} // verus!
