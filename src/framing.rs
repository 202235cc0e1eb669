//! The wire format of stream transports: eight bytes holding the payload's
//! length, most significant first, then the payload itself.
use vstd::prelude::*;
use crate::error::FrameError;

verus! {

/// Size of the length prefix.
pub const HEADER_LEN: usize = 8;

/// The eight bytes of `n`, most significant first.
pub open spec fn be_bytes(n: u64) -> Seq<u8> {
    seq![
        (n >> 56u64) as u8,
        (n >> 48u64) as u8,
        (n >> 40u64) as u8,
        (n >> 32u64) as u8,
        (n >> 24u64) as u8,
        (n >> 16u64) as u8,
        (n >> 8u64) as u8,
        n as u8,
    ]
}

/// The number spelled by the first eight bytes of `b`, most significant first.
pub open spec fn be_value(b: Seq<u8>) -> u64
    recommends
        b.len() >= 8,
{
    ((b[0] as u64) << 56u64) | ((b[1] as u64) << 48u64) | ((b[2] as u64) << 40u64) | ((
    b[3] as u64) << 32u64) | ((b[4] as u64) << 24u64) | ((b[5] as u64) << 16u64) | ((b[6] as u64)
        << 8u64) | (b[7] as u64)
}

/// The bytes a sender writes for `payload`.
pub open spec fn frame(payload: Seq<u8>) -> Seq<u8> {
    be_bytes(payload.len() as u64) + payload
}

/// The payload length that a stream's header declares.
pub open spec fn declared_length(stream: Seq<u8>) -> nat {
    be_value(stream) as nat
}

/// The header has arrived and so have all the payload bytes it declares.
pub open spec fn frame_complete(stream: Seq<u8>) -> bool {
    stream.len() >= HEADER_LEN && stream.len() - HEADER_LEN >= declared_length(stream)
}

/// What a receiver keeps of a stream: everything up to the end of the
/// frame, nothing after it.
pub open spec fn accepted(stream: Seq<u8>) -> Seq<u8> {
    if frame_complete(stream) {
        stream.take(HEADER_LEN + declared_length(stream))
    } else {
        stream
    }
}

/// What a receiver reports once `stream` has closed: the declared payload,
/// or why there is none.
pub open spec fn frame_outcome(stream: Seq<u8>) -> Result<Seq<u8>, FrameError> {
    if stream.len() < HEADER_LEN {
        Err(FrameError::ShortHeader { received: stream.len() as u64 })
    } else if !frame_complete(stream) {
        Err(
            FrameError::ShortPayload {
                expected: declared_length(stream) as u64,
                received: (stream.len() - HEADER_LEN) as u64,
            },
        )
    } else {
        Ok(stream.subrange(HEADER_LEN as int, HEADER_LEN + declared_length(stream)))
    }
}

pub proof fn lemma_be_value_of_bytes(n: u64)
    ensures
        be_value(be_bytes(n)) == n,
{
    assert(((((n >> 56u64) as u8) as u64) << 56u64) | ((((n >> 48u64) as u8) as u64) << 48u64)
        | ((((n >> 40u64) as u8) as u64) << 40u64) | ((((n >> 32u64) as u8) as u64) << 32u64) | ((
    ((n >> 24u64) as u8) as u64) << 24u64) | ((((n >> 16u64) as u8) as u64) << 16u64) | ((((n
        >> 8u64) as u8) as u64) << 8u64) | ((n as u8) as u64) == n) by (bit_vector);
}

/// A length prefix decodes to the length it was made from.
pub proof fn lemma_header_round_trip(n: u64)
    ensures
        be_bytes(n).len() == HEADER_LEN,
        declared_length(be_bytes(n)) == n,
{
    lemma_be_value_of_bytes(n);
}

proof fn lemma_declared_prefix(s: Seq<u8>, t: Seq<u8>)
    requires
        s.len() >= HEADER_LEN,
    ensures
        declared_length(s + t) == declared_length(s),
        be_value(s + t) == be_value(s),
{
    let st = s + t;
    assert(st[0] == s[0] && st[1] == s[1] && st[2] == s[2] && st[3] == s[3]);
    assert(st[4] == s[4] && st[5] == s[5] && st[6] == s[6] && st[7] == s[7]);
}

proof fn lemma_declared_take(s: Seq<u8>, n: int)
    requires
        HEADER_LEN <= n <= s.len(),
    ensures
        declared_length(s.take(n)) == declared_length(s),
{
    let t = s.take(n);
    assert(t[0] == s[0] && t[1] == s[1] && t[2] == s[2] && t[3] == s[3]);
    assert(t[4] == s[4] && t[5] == s[5] && t[6] == s[6] && t[7] == s[7]);
}

/// Once a frame is complete, bytes that follow change nothing a receiver keeps.
proof fn lemma_complete_absorbs(s: Seq<u8>, c: Seq<u8>)
    requires
        frame_complete(s),
    ensures
        frame_complete(s + c),
        declared_length(s + c) == declared_length(s),
        accepted(s + c) == accepted(s),
{
    lemma_declared_prefix(s, c);
    let n = HEADER_LEN + declared_length(s);
    assert((s + c).take(n) =~= s.take(n));
}

/// What a receiver keeps of a stream is itself a stream it would keep whole.
pub proof fn lemma_accepted_stable(s: Seq<u8>)
    ensures
        accepted(accepted(s)) == accepted(s),
        frame_complete(accepted(s)) == frame_complete(s),
        frame_outcome(accepted(s)) == frame_outcome(s),
{
    if frame_complete(s) {
        let n = HEADER_LEN + declared_length(s);
        lemma_declared_take(s, n);
        let a = s.take(n);
        assert(a.take(n) =~= a);
        assert(a.subrange(HEADER_LEN as int, n) =~= s.subrange(HEADER_LEN as int, n));
    }
}

/// Feeding a stream to a receiver in pieces keeps what feeding it at once
/// would keep: the receiver's bytes after each piece are `accepted` of all
/// bytes so far.
pub proof fn lemma_accepted_chunking(s: Seq<u8>, c: Seq<u8>)
    ensures
        accepted(accepted(s) + c) == accepted(s + c),
{
    if frame_complete(s) {
        lemma_accepted_stable(s);
        lemma_complete_absorbs(accepted(s), c);
        lemma_complete_absorbs(s, c);
    }
}

/// A frame read in full yields exactly the payload it was made from, whatever
/// follows it on the stream; an empty payload is no exception.
pub proof fn lemma_frame_round_trip(payload: Seq<u8>, trailing: Seq<u8>)
    requires
        payload.len() <= u64::MAX,
    ensures
        frame_complete(frame(payload)),
        frame_outcome(frame(payload) + trailing) == Ok::<Seq<u8>, FrameError>(payload),
        frame_outcome(frame(payload) + trailing).unwrap().len() == payload.len(),
{
    let f = frame(payload);
    lemma_header_round_trip(payload.len() as u64);
    lemma_declared_prefix(be_bytes(payload.len() as u64), payload);
    lemma_declared_prefix(f, trailing);
    let st = f + trailing;
    assert(st.subrange(HEADER_LEN as int, HEADER_LEN + payload.len()) =~= payload);
}

/// The pieces of a stream laid end to end.
pub open spec fn joined(pieces: Seq<Seq<u8>>) -> Seq<u8>
    decreases pieces.len(),
{
    if pieces.len() == 0 {
        Seq::empty()
    } else {
        joined(pieces.drop_last()) + pieces.last()
    }
}

/// What a fresh receiver holds after being fed `pieces` one after another.
pub open spec fn fed(pieces: Seq<Seq<u8>>) -> Seq<u8>
    decreases pieces.len(),
{
    if pieces.len() == 0 {
        Seq::empty()
    } else {
        accepted(fed(pieces.drop_last()) + pieces.last())
    }
}

/// A receiver fed a stream in pieces holds what it would hold had the
/// stream come at once.
pub proof fn lemma_fed_pieces(pieces: Seq<Seq<u8>>)
    ensures
        fed(pieces) == accepted(joined(pieces)),
    decreases pieces.len(),
{
    if pieces.len() > 0 {
        lemma_fed_pieces(pieces.drop_last());
        lemma_accepted_chunking(joined(pieces.drop_last()), pieces.last());
    }
}

/// Sent through a stream in any pieces, with anything after it, a frame
/// leaves its receiver with exactly the payload it was made from, of the
/// same length; an empty payload is no exception.
pub proof fn lemma_receiver_round_trip(payload: Seq<u8>, trailing: Seq<u8>, pieces: Seq<Seq<u8>>)
    requires
        payload.len() <= u64::MAX,
        joined(pieces) == frame(payload) + trailing,
    ensures
        frame_outcome(fed(pieces)) == Ok::<Seq<u8>, FrameError>(payload),
{
    lemma_fed_pieces(pieces);
    lemma_accepted_stable(joined(pieces));
    lemma_frame_round_trip(payload, trailing);
}

/// A receiver whose stream closes before the declared payload has fully
/// arrived, whatever pieces it came in, reports the frame as incomplete and
/// hands out no partial payload.
pub proof fn lemma_short_stream_fails(pieces: Seq<Seq<u8>>)
    requires
        !frame_complete(joined(pieces)),
    ensures
        frame_outcome(fed(pieces)) is Err,
        joined(pieces).len() >= HEADER_LEN ==> frame_outcome(fed(pieces)) == Err::<Seq<u8>, FrameError>(
            FrameError::ShortPayload {
                expected: declared_length(joined(pieces)) as u64,
                received: (joined(pieces).len() - HEADER_LEN) as u64,
            },
        ),
{
    lemma_fed_pieces(pieces);
}

/// The length prefix of `n`.
pub fn encode_length(n: u64) -> (r: Vec<u8>)
    ensures
        r@ == be_bytes(n),
{
    let r = vec![
        (n >> 56u64) as u8,
        (n >> 48u64) as u8,
        (n >> 40u64) as u8,
        (n >> 32u64) as u8,
        (n >> 24u64) as u8,
        (n >> 16u64) as u8,
        (n >> 8u64) as u8,
        n as u8,
    ];
    assert(r@ =~= be_bytes(n));
    r
}

/// The number held by the first eight bytes of `b`.
pub fn decode_length(b: &[u8]) -> (r: u64)
    requires
        b@.len() >= HEADER_LEN,
    ensures
        r == be_value(b@),
{
    ((b[0] as u64) << 56u64) | ((b[1] as u64) << 48u64) | ((b[2] as u64) << 40u64) | ((
    b[3] as u64) << 32u64) | ((b[4] as u64) << 24u64) | ((b[5] as u64) << 16u64) | ((b[6] as u64)
        << 8u64) | (b[7] as u64)
}

/// The bytes to write for `payload`: its length prefix, then the payload.
pub fn encode_frame(payload: &[u8]) -> (r: Vec<u8>)
    ensures
        r@ == frame(payload@),
{
    let mut r = encode_length(payload.len() as u64);
    let mut i: usize = 0;
    while i < payload.len()
        invariant
            i <= payload@.len(),
            r@ == be_bytes(payload@.len() as u64) + payload@.take(i as int),
        decreases payload@.len() - i,
    {
        r.push(payload[i]);
        i = i + 1;
        assert(payload@.take(i as int) =~= payload@.take(i - 1).push(payload@[i - 1]));
        assert(r@ =~= be_bytes(payload@.len() as u64) + payload@.take(i as int));
    }
    assert(payload@.take(i as int) =~= payload@);
    r
}

/// The receiving side of one frame. It keeps the bytes of the frame as they
/// arrive, in pieces of any size, and ignores whatever follows the frame.
pub struct FrameReceiver {
    received: Vec<u8>,
}

impl View for FrameReceiver {
    type V = Seq<u8>;

    closed spec fn view(&self) -> Seq<u8> {
        self.received@
    }
}

impl FrameReceiver {
    pub open spec fn wf(&self) -> bool {
        accepted(self@) == self@
    }

    /// A receiver that has seen nothing yet.
    pub fn new() -> (r: FrameReceiver)
        ensures
            r.wf(),
            r@ == Seq::<u8>::empty(),
    {
        FrameReceiver { received: Vec::new() }
    }

    /// Whether the frame still lacks bytes.
    pub fn wants_more(&self) -> (r: bool)
        ensures
            r == !frame_complete(self@),
    {
        if self.received.len() < HEADER_LEN {
            true
        } else {
            let expected = decode_length(self.received.as_slice());
            (((self.received.len() - HEADER_LEN) as u64) < expected)
        }
    }

    /// Takes the next piece of the stream and returns how many of its bytes
    /// belong to the frame.
    pub fn feed(&mut self, chunk: &[u8]) -> (consumed: usize)
        requires
            old(self).wf(),
        ensures
            final(self).wf(),
            final(self)@ == accepted(old(self)@ + chunk@),
            consumed <= chunk@.len(),
            final(self)@ == old(self)@ + chunk@.take(consumed as int),
    {
        let mut i: usize = 0;
        while i < chunk.len() && self.wants_more()
            invariant
                i <= chunk@.len(),
                self@ == old(self)@ + chunk@.take(i as int),
                accepted(self@) == self@,
            decreases chunk@.len() - i,
        {
            proof {
                let s = self@;
                if s.len() >= HEADER_LEN {
                    lemma_declared_prefix(s, seq![chunk@[i as int]]);
                }
            }
            self.received.push(chunk[i]);
            i = i + 1;
            assert(chunk@.take(i as int) =~= chunk@.take(i - 1).push(chunk@[i - 1]));
            assert(self@ =~= old(self)@ + chunk@.take(i as int));
        }
        proof {
            let rest = chunk@.skip(i as int);
            assert(old(self)@ + chunk@ =~= self@ + rest);
            if i < chunk@.len() {
                lemma_complete_absorbs(self@, rest);
            } else {
                assert(rest =~= Seq::<u8>::empty());
                assert(self@ + rest =~= self@);
            }
        }
        i
    }

    /// Ends the frame when the stream has closed: the payload if the frame
    /// is complete, else why it is not.
    pub fn finish(self) -> (r: Result<Vec<u8>, FrameError>)
        requires
            self.wf(),
        ensures
            match r {
                Ok(p) => frame_outcome(self@) == Ok::<Seq<u8>, FrameError>(p@),
                Err(e) => frame_outcome(self@) == Err::<Seq<u8>, FrameError>(e),
            },
    {
        let n = self.received.len();
        if n < HEADER_LEN {
            return Err(FrameError::ShortHeader { received: n as u64 });
        }
        let expected = decode_length(self.received.as_slice());
        let got = (n - HEADER_LEN) as u64;
        if got < expected {
            return Err(FrameError::ShortPayload { expected, received: got });
        }
        let mut payload: Vec<u8> = Vec::new();
        let mut i: usize = HEADER_LEN;
        let end: usize = HEADER_LEN + expected as usize;
        while i < end
            invariant
                HEADER_LEN <= i <= end,
                end == HEADER_LEN + declared_length(self@),
                end <= n == self@.len(),
                payload@ == self@.subrange(HEADER_LEN as int, i as int),
            decreases end - i,
        {
            payload.push(self.received[i]);
            i = i + 1;
            assert(payload@ =~= self@.subrange(HEADER_LEN as int, i as int));
        }
        Ok(payload)
    }
}

} // verus!
