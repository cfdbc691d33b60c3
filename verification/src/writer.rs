use bytes::BytesMut;
use vstd::prelude::*;

use crate::buffer::{drop_front, held_bytes};

verus! {

/// The sending side of a stream: it holds the bytes of the message that is being sent which the
/// stream has not taken yet.
#[derive(Debug)]
pub struct Writer {
    buffer: BytesMut,
}

impl View for Writer {
    type V = Seq<u8>;

    /// What is still to be sent.
    closed spec fn view(&self) -> Seq<u8> {
        crate::buffer::buffered(self.buffer)
    }
}

impl Writer {
    /// Nothing is to be sent.
    pub fn new() -> (writer: Writer)
        ensures
            writer@ == Seq::<u8>::empty(),
    {
        Writer { buffer: BytesMut::new() }
    }

    /// A new stream starts with what it is for, here encoded as `kind`.
    pub fn open(kind: &[u8]) -> (writer: Writer)
        ensures
            writer@ == kind@,
    {
        let mut writer = Writer::new();
        writer.encode(kind);
        writer
    }

    /// Starts to send an encoded message. Whatever was left of the one before is dropped.
    pub fn encode(&mut self, message: &[u8])
        ensures
            final(self)@ == message@,
    {
        self.buffer.clear();
        self.buffer.extend_from_slice(message);
        assert(self@ =~= message@);
    }

    /// Whether the stream has taken all of the message.
    pub fn is_empty(&self) -> (r: bool)
        ensures
            r == (self@.len() == 0),
    {
        self.buffer.is_empty()
    }

    /// What the stream is to take next.
    pub fn pending(&self) -> (held: &[u8])
        ensures
            held@ == self@,
    {
        held_bytes(&self.buffer)
    }

    /// The stream took `n` bytes.
    pub fn wrote(&mut self, n: usize)
        requires
            n <= old(self)@.len(),
        ensures
            final(self)@ == old(self)@.skip(n as int),
    {
        drop_front(&mut self.buffer, n)
    }
}

/// Whether a stream can take `counts` bytes of `pending`, one count after the other.
pub open spec fn takes(pending: Seq<u8>, counts: Seq<nat>) -> bool
    decreases counts.len(),
{
    counts.len() > 0 ==> {
        &&& counts[0] <= pending.len()
        &&& takes(pending.skip(counts[0] as int), counts.drop_first())
    }
}

/// What the stream has after it took `counts` bytes of `pending`, one count after the other.
pub open spec fn taken(pending: Seq<u8>, counts: Seq<nat>) -> Seq<u8>
    decreases counts.len(),
{
    if counts.len() == 0 {
        Seq::empty()
    } else {
        pending.take(counts[0] as int) + taken(
            pending.skip(counts[0] as int),
            counts.drop_first(),
        )
    }
}

/// What is still to be sent after the stream took `counts` bytes of `pending`, one count after
/// the other: what [`Writer::wrote`] leaves, call by call.
pub open spec fn left(pending: Seq<u8>, counts: Seq<nat>) -> Seq<u8>
    decreases counts.len(),
{
    if counts.len() == 0 {
        pending
    } else {
        left(pending.skip(counts[0] as int), counts.drop_first())
    }
}

/// However a stream takes a message apart, it gets the bytes of the message in order, each once:
/// what it has and what is still to be sent make up the message. Once nothing is left it has
/// the message.
pub proof fn law_message_is_sent_whole(message: Seq<u8>, counts: Seq<nat>)
    requires
        takes(message, counts),
    ensures
        taken(message, counts) + left(message, counts) == message,
        left(message, counts).len() == 0 ==> taken(message, counts) == message,
    decreases counts.len(),
{
    if counts.len() > 0 {
        let n = counts[0] as int;
        let rest = message.skip(n);
        law_message_is_sent_whole(rest, counts.drop_first());
        assert(message.take(n) + rest =~= message);
        assert(taken(message, counts) + left(message, counts) =~= message.take(n) + (taken(
            rest,
            counts.drop_first(),
        ) + left(rest, counts.drop_first())));
    }
    assert(taken(message, counts) + left(message, counts) =~= message);
    if left(message, counts).len() == 0 {
        assert(taken(message, counts) =~= taken(message, counts) + left(message, counts));
    }
}

} // verus!
