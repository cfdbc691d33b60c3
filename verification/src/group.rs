use bytes::Bytes;
use vstd::prelude::*;

use crate::error::Error;
use crate::message::Frame;

verus! {

/// The bytes of a chunk that may be missing.
pub open spec fn chunk_view(chunk: Option<Bytes>) -> Option<Seq<u8>> {
    match chunk {
        Some(bytes) => Some(crate::buffer::payload(bytes)),
        None => None,
    }
}

/// What becomes of an open frame of which `remain` bytes are to be sent, when its next chunk
/// comes, or when its end does: it stays open with fewer bytes to be sent, or it is closed. No
/// result means that the frame does not have the size that it declared.
pub open spec fn sends(remain: nat, chunk: Option<Seq<u8>>) -> Option<Option<nat>> {
    match chunk {
        Some(bytes) => if bytes.len() <= remain {
            Some(Some((remain - bytes.len()) as nat))
        } else {
            None
        },
        None => if remain == 0 {
            Some(None)
        } else {
            None
        },
    }
}

/// How many bytes of a frame are to be received, when `remain` were and a chunk comes, or when
/// the stream ends. No result means that the frame does not have the size that it declared.
pub open spec fn receives(remain: nat, chunk: Option<Seq<u8>>) -> Option<nat> {
    match chunk {
        Some(bytes) => if bytes.len() <= remain {
            Some((remain - bytes.len()) as nat)
        } else {
            None
        },
        None => None,
    }
}

/// Sends a group, frame by frame and each frame chunk by chunk.
#[derive(Debug)]
pub struct GroupServer {
    open: Option<usize>,
}

impl View for GroupServer {
    type V = Option<nat>;

    /// How many bytes of the open frame are to be sent. Between frames there is none.
    closed spec fn view(&self) -> Option<nat> {
        match self.open {
            Some(remain) => Some(remain as nat),
            None => None,
        }
    }
}

impl GroupServer {
    /// No frame has been sent yet.
    pub fn new() -> (server: GroupServer)
        ensures
            server@ == None::<nat>,
    {
        GroupServer { open: None }
    }

    /// Opens the next frame of the group, given its size: its head is to be sent. Without a next
    /// frame the group is done.
    pub fn next_frame(&mut self, size: Option<usize>) -> (head: Option<Frame>)
        requires
            old(self)@ is None,
        ensures
            match size {
                Some(size) => head == Some(Frame { size }) && final(self)@ == Some(size as nat),
                None => head is None && final(self)@ is None,
            },
    {
        self.open = size;
        match size {
            Some(size) => Some(Frame { size }),
            None => None,
        }
    }

    /// The next chunk of the open frame is to be sent; without a next chunk the frame is done.
    /// Fails where the chunks are more bytes than the frame declared, or the frame ends with
    /// fewer.
    pub fn chunk(&mut self, chunk: Option<Bytes>) -> (send: Result<Option<Bytes>, Error>)
        requires
            old(self)@ is Some,
        ensures
            match sends(old(self)@->0, chunk_view(chunk)) {
                Some(open) => send == Ok::<_, Error>(chunk) && final(self)@ == open,
                None => send == Err::<Option<Bytes>, _>(Error::WrongSize) && final(self)@ == old(
                    self,
                )@,
            },
    {
        let remain: usize = self.open.unwrap();
        match chunk {
            Some(bytes) => {
                let n: usize = bytes.len();
                match remain.checked_sub(n) {
                    Some(rest) => {
                        self.open = Some(rest);
                        Ok(Some(bytes))
                    },
                    None => Err(Error::WrongSize),
                }
            },
            None => {
                if remain > 0 {
                    return Err(Error::WrongSize);
                }
                self.open = None;
                Ok(None)
            },
        }
    }
}

/// Receives a group, frame by frame and each frame chunk by chunk.
#[derive(Debug)]
pub struct GroupReceiver {
    remain: usize,
}

impl View for GroupReceiver {
    type V = nat;

    /// How many bytes of the frame are to be received. Between frames there are none.
    closed spec fn view(&self) -> nat {
        self.remain as nat
    }
}

impl GroupReceiver {
    /// No frame has been received yet.
    pub fn new() -> (receiver: GroupReceiver)
        ensures
            receiver@ == 0,
    {
        GroupReceiver { remain: 0 }
    }

    /// The head of the next frame: a frame of its size is to be created. Without a next frame
    /// the group is done.
    pub fn frame(&mut self, head: Option<Frame>) -> (create: Option<usize>)
        requires
            old(self)@ == 0,
        ensures
            match head {
                Some(frame) => create == Some(frame.size) && final(self)@ == frame.size,
                None => create is None && final(self)@ == 0,
            },
    {
        match head {
            Some(frame) => {
                self.remain = frame.size;
                Some(frame.size)
            },
            None => None,
        }
    }

    /// How many bytes of the frame are to be received, which is the most that may be read now.
    pub fn wants(&self) -> (n: usize)
        ensures
            n == self@,
    {
        self.remain
    }

    /// The next chunk of the frame: it is to be written to the frame. Fails where the stream
    /// ended instead, or where the chunk is more than what was wanted.
    pub fn chunk(&mut self, chunk: Option<Bytes>) -> (write: Result<Bytes, Error>)
        requires
            old(self)@ > 0,
        ensures
            match receives(old(self)@, chunk_view(chunk)) {
                Some(remain) => write == Ok::<_, Error>(chunk->0) && final(self)@ == remain,
                None => write == Err::<Bytes, _>(Error::WrongSize) && final(self)@ == old(self)@,
            },
    {
        match chunk {
            Some(bytes) => {
                let n: usize = bytes.len();
                match self.remain.checked_sub(n) {
                    Some(rest) => {
                        self.remain = rest;
                        Ok(bytes)
                    },
                    None => Err(Error::WrongSize),
                }
            },
            None => Err(Error::WrongSize),
        }
    }
}

/// What a group's stream carries behind the head of the group.
pub enum Token {
    /// The head of a frame, with its size.
    Head(nat),
    /// A byte of the payload of a frame.
    Byte(u8),
}

/// A payload on the stream.
pub open spec fn on_stream(payload: Seq<u8>) -> Seq<Token> {
    Seq::new(payload.len(), |i: int| Token::Byte(payload[i]))
}

/// The frames of a group on its stream: each has a head with its size in front.
pub open spec fn framing(frames: Seq<Seq<u8>>) -> Seq<Token>
    decreases frames.len(),
{
    if frames.len() == 0 {
        Seq::empty()
    } else {
        seq![Token::Head(frames[0].len())] + on_stream(frames[0]) + framing(frames.drop_first())
    }
}

/// Whether [`GroupServer`] sends all of a frame with `remain` bytes to be sent whose remaining
/// chunks are `chunks`.
pub open spec fn sends_frame(remain: nat, chunks: Seq<Seq<u8>>) -> bool
    decreases chunks.len(),
{
    if chunks.len() == 0 {
        sends(remain, None) is Some
    } else {
        match sends(remain, Some(chunks[0])) {
            Some(Some(rest)) => sends_frame(rest, chunks.drop_first()),
            _ => false,
        }
    }
}

/// What of a frame [`GroupServer`] sends, with `remain` bytes to be sent and the chunks `chunks`,
/// until it is done or fails.
pub open spec fn frame_sent(remain: nat, chunks: Seq<Seq<u8>>) -> Seq<u8>
    decreases chunks.len(),
{
    if chunks.len() == 0 {
        Seq::empty()
    } else {
        match sends(remain, Some(chunks[0])) {
            Some(Some(rest)) => chunks[0] + frame_sent(rest, chunks.drop_first()),
            _ => Seq::empty(),
        }
    }
}

/// Whether [`GroupServer`] sends all of a group whose frames have these declared sizes and
/// chunks.
pub open spec fn sends_group(frames: Seq<(nat, Seq<Seq<u8>>)>) -> bool {
    forall|i: int| 0 <= i < frames.len() ==> sends_frame((#[trigger] frames[i]).0, frames[i].1)
}

/// How many frames there are in front of the first one that [`GroupServer`] does not send all of.
pub open spec fn right_frames(frames: Seq<(nat, Seq<Seq<u8>>)>) -> nat
    decreases frames.len(),
{
    if frames.len() > 0 && sends_frame(frames[0].0, frames[0].1) {
        1 + right_frames(frames.drop_first())
    } else {
        0
    }
}

/// What [`GroupServer`] puts on the stream for a group whose frames have these declared sizes and
/// chunks, until it is done or fails.
pub open spec fn sent(frames: Seq<(nat, Seq<Seq<u8>>)>) -> Seq<Token>
    decreases frames.len(),
{
    if frames.len() == 0 {
        Seq::empty()
    } else {
        let (size, chunks) = frames[0];
        let front = seq![Token::Head(size)] + on_stream(frame_sent(size, chunks));
        if sends_frame(size, chunks) {
            front + sent(frames.drop_first())
        } else {
            front
        }
    }
}

/// The payloads of the frames of a group.
pub open spec fn payloads(frames: Seq<(nat, Seq<Seq<u8>>)>) -> Seq<Seq<u8>> {
    Seq::new(frames.len(), |i: int| frames[i].1.flatten())
}

/// How many bytes a stream hands out that was asked for at most `most`, and at least one, and
/// was inclined to hand out `n`.
pub open spec fn cut(n: nat, most: nat) -> nat {
    if n == 0 {
        1
    } else if n > most {
        most
    } else {
        n
    }
}

/// How many bytes a stream with something left hands out, when `remain` bytes are asked for and it
/// is inclined to hand out `inclined(n)` bytes at a time with `n` tokens left.
pub open spec fn handed_out(
    remain: nat,
    stream: Seq<Token>,
    inclined: spec_fn(nat) -> nat,
) -> nat {
    cut(
        inclined(stream.len()),
        if remain <= stream.len() {
            remain
        } else {
            stream.len()
        },
    )
}

/// The bytes in front of a stream, where its first `n` tokens are bytes.
pub open spec fn front(stream: Seq<Token>, n: nat) -> Option<Seq<u8>> {
    if n <= stream.len() && forall|i: int| 0 <= i < n ==> (#[trigger] stream[i]) is Byte {
        Some(Seq::new(n, |i: int| stream[i]->Byte_0))
    } else {
        None
    }
}

/// The frames that [`GroupReceiver`] makes of what is left of a stream, when `remain` bytes of the
/// last frame in `frames` are to be received, and the stream is inclined to hand out
/// `inclined(n)` bytes at a time with `n` tokens left. No result means that it fails.
pub open spec fn received(
    remain: nat,
    stream: Seq<Token>,
    inclined: spec_fn(nat) -> nat,
    frames: Seq<Seq<u8>>,
) -> Option<Seq<Seq<u8>>>
    decreases stream.len(),
{
    if stream.len() == 0 {
        if remain == 0 || receives(remain, None) is Some {
            Some(frames)
        } else {
            None
        }
    } else if remain == 0 {
        match stream[0] {
            Token::Head(size) => received(
                size,
                stream.drop_first(),
                inclined,
                frames.push(Seq::empty()),
            ),
            Token::Byte(_) => None,
        }
    } else {
        let n = handed_out(remain, stream, inclined);
        match front(stream, n) {
            Some(chunk) => match receives(remain, Some(chunk)) {
                Some(rest) => received(
                    rest,
                    stream.skip(n as int),
                    inclined,
                    frames.drop_last().push(frames.last() + chunk),
                ),
                None => None,
            },
            None => None,
        }
    }
}

/// A frame is sent exactly where its chunks together have the size that it declared.
pub proof fn law_frame_has_declared_size(size: nat, chunks: Seq<Seq<u8>>)
    ensures
        sends_frame(size, chunks) <==> chunks.flatten().len() == size,
    decreases chunks.len(),
{
    if chunks.len() > 0 {
        let rest = chunks.drop_first();
        assert(chunks.flatten() =~= chunks[0] + rest.flatten());
        if chunks[0].len() <= size {
            law_frame_has_declared_size((size - chunks[0].len()) as nat, rest);
        }
    }
}

/// Of a frame never more is sent than it declared, whatever its chunks: what is sent is the front
/// of it, and all of it where the frame is sent.
pub proof fn law_frame_is_not_exceeded(size: nat, chunks: Seq<Seq<u8>>)
    ensures
        frame_sent(size, chunks).len() <= size,
        frame_sent(size, chunks).is_prefix_of(chunks.flatten()),
        sends_frame(size, chunks) ==> frame_sent(size, chunks) == chunks.flatten(),
    decreases chunks.len(),
{
    let whole = chunks.flatten();
    let part = frame_sent(size, chunks);
    if chunks.len() > 0 {
        let rest = chunks.drop_first();
        assert(whole =~= chunks[0] + rest.flatten());
        if chunks[0].len() <= size {
            let remain = (size - chunks[0].len()) as nat;
            law_frame_is_not_exceeded(remain, rest);
            let tail = frame_sent(remain, rest);
            assert(tail =~= rest.flatten().subrange(0, tail.len() as int));
            assert(part =~= chunks[0] + tail);
        }
    }
    assert(part =~= whole.subrange(0, part.len() as int));
}

/// What is sent of a frame are its first chunks, whole: as many as fit into the size that it
/// declared.
pub proof fn law_frame_is_sent_in_whole_chunks(size: nat, chunks: Seq<Seq<u8>>, n: int)
    requires
        0 <= n <= chunks.len(),
        chunks.take(n).flatten().len() <= size,
        n < chunks.len() ==> chunks.take(n + 1).flatten().len() > size,
    ensures
        frame_sent(size, chunks) == chunks.take(n).flatten(),
    decreases chunks.len(),
{
    if chunks.len() > 0 {
        let rest = chunks.drop_first();
        if n == 0 {
            assert(chunks.take(1).drop_first() =~= Seq::empty());
            assert(chunks.take(1).flatten() =~= chunks[0] + Seq::empty().flatten());
        } else {
            let whole = chunks.take(n);
            assert(whole.drop_first() =~= rest.take(n - 1));
            assert(whole.flatten() =~= chunks[0] + rest.take(n - 1).flatten());
            if n < chunks.len() {
                assert(chunks.take(n + 1).drop_first() =~= rest.take(n));
                assert(chunks.take(n + 1).flatten() =~= chunks[0] + rest.take(n).flatten());
            }
            law_frame_is_sent_in_whole_chunks((size - chunks[0].len()) as nat, rest, n - 1);
        }
    }
}

/// What is on the stream for a group that was sent does not depend on how its frames were cut
/// into chunks: it is the framing of their payloads.
pub proof fn law_group_is_framed(frames: Seq<(nat, Seq<Seq<u8>>)>)
    requires
        sends_group(frames),
    ensures
        sent(frames) == framing(payloads(frames)),
{
    lemma_sent(frames, frames.len() as int);
    assert(frames.take(frames.len() as int) =~= frames);
    assert(frames.skip(frames.len() as int) =~= Seq::empty());
}

/// A group goes out up to its first wrong frame: on the stream are the framing of the frames in
/// front of it, its head, and what of it is sent. Nothing follows, whatever comes behind it in the
/// group. Where no frame is wrong, the framing is all.
pub proof fn law_group_is_sent_up_to_a_wrong_frame(frames: Seq<(nat, Seq<Seq<u8>>)>)
    ensures
        ({
            let n = right_frames(frames) as int;
            let right = framing(payloads(frames.take(n)));
            &&& n <= frames.len()
            &&& sends_group(frames.take(n))
            &&& n == frames.len() ==> sent(frames) == right
            &&& n < frames.len() ==> {
                let (size, chunks) = frames[n];
                &&& !sends_frame(size, chunks)
                &&& sent(frames) == right + (seq![Token::Head(size)] + on_stream(
                    frame_sent(size, chunks),
                ))
            }
        }),
{
    lemma_right_frames(frames);
    let n = right_frames(frames) as int;
    lemma_sent(frames, n);
    if n < frames.len() {
        assert(frames.skip(n)[0] == frames[n]);
    } else {
        assert(frames.skip(n) =~= Seq::empty());
    }
}

proof fn lemma_right_frames(frames: Seq<(nat, Seq<Seq<u8>>)>)
    ensures
        right_frames(frames) <= frames.len(),
        sends_group(frames.take(right_frames(frames) as int)),
        right_frames(frames) < frames.len() ==> !sends_frame(
            frames[right_frames(frames) as int].0,
            frames[right_frames(frames) as int].1,
        ),
    decreases frames.len(),
{
    let right = frames.take(right_frames(frames) as int);
    if frames.len() > 0 {
        let rest = frames.drop_first();
        lemma_right_frames(rest);
        assert forall|i: int| 0 <= i < right.len() implies sends_frame(
            (#[trigger] right[i]).0,
            right[i].1,
        ) by {
            if i > 0 {
                assert(right[i] == rest.take(right_frames(rest) as int)[i - 1]);
            }
        }
    }
}

proof fn lemma_sent(frames: Seq<(nat, Seq<Seq<u8>>)>, n: int)
    requires
        0 <= n <= frames.len(),
        sends_group(frames.take(n)),
    ensures
        sent(frames) == framing(payloads(frames.take(n))) + sent(frames.skip(n)),
    decreases n,
{
    let good = frames.take(n);
    if n == 0 {
        assert(frames.skip(n) =~= frames);
        assert(framing(payloads(good)) + sent(frames) =~= sent(frames));
    } else {
        let rest = frames.drop_first();
        let after = rest.take(n - 1);
        assert(sends_group(after)) by {
            assert forall|i: int| 0 <= i < after.len() implies sends_frame(
                (#[trigger] after[i]).0,
                after[i].1,
            ) by {
                assert(after[i] == good[i + 1]);
            }
        }
        lemma_sent(rest, n - 1);
        let (size, chunks) = frames[0];
        assert(good[0] == frames[0]);
        assert(sends_frame(good[0].0, good[0].1));
        law_frame_has_declared_size(size, chunks);
        law_frame_is_not_exceeded(size, chunks);
        assert(payloads(good).drop_first() =~= payloads(after));
        assert(rest.skip(n - 1) =~= frames.skip(n));
        assert(sent(frames) =~= framing(payloads(good)) + sent(frames.skip(n)));
    }
}

proof fn lemma_chunk(
    part: Seq<u8>,
    rest: Seq<u8>,
    remain: nat,
    tail: Seq<Token>,
    inclined: spec_fn(nat) -> nat,
    done: Seq<Seq<u8>>,
) -> (n: nat)
    requires
        0 < rest.len() <= remain,
        tail.len() > 0 ==> rest.len() == remain,
    ensures
        0 < n <= rest.len(),
        received(remain, on_stream(rest) + tail, inclined, done.push(part)) == received(
            (remain - n) as nat,
            on_stream(rest.skip(n as int)) + tail,
            inclined,
            done.push(part + rest.take(n as int)),
        ),
{
    let stream = on_stream(rest) + tail;
    let frames = done.push(part);
    let n = handed_out(remain, stream, inclined);
    assert(0 < n <= rest.len() <= stream.len());
    assert forall|i: int| 0 <= i < n implies (#[trigger] stream[i]) is Byte by {
        assert(stream[i] == on_stream(rest)[i]);
    }
    let chunk = front(stream, n)->0;
    assert(chunk =~= rest.take(n as int)) by {
        assert forall|i: int| 0 <= i < n implies chunk[i] == rest[i] by {
            assert(stream[i] == on_stream(rest)[i]);
        }
    }
    assert(on_stream(rest).skip(n as int) =~= on_stream(rest.skip(n as int)));
    assert(stream.skip(n as int) =~= on_stream(rest.skip(n as int)) + tail);
    assert(frames.drop_last().push(frames.last() + chunk) =~= done.push(part + chunk));
    n
}

proof fn lemma_payload(
    part: Seq<u8>,
    rest: Seq<u8>,
    tail: Seq<Token>,
    inclined: spec_fn(nat) -> nat,
    done: Seq<Seq<u8>>,
)
    ensures
        received(rest.len(), on_stream(rest) + tail, inclined, done.push(part)) == received(
            0,
            tail,
            inclined,
            done.push(part + rest),
        ),
    decreases rest.len(),
{
    if rest.len() == 0 {
        assert(part + rest =~= part);
        assert(on_stream(rest) + tail =~= tail);
    } else {
        let n = lemma_chunk(part, rest, rest.len(), tail, inclined, done);
        let chunk = rest.take(n as int);
        lemma_payload(part + chunk, rest.skip(n as int), tail, inclined, done);
        assert((part + chunk) + rest.skip(n as int) =~= part + rest);
    }
}

proof fn lemma_frames(
    frames: Seq<Seq<u8>>,
    tail: Seq<Token>,
    inclined: spec_fn(nat) -> nat,
    done: Seq<Seq<u8>>,
)
    ensures
        received(0, framing(frames) + tail, inclined, done) == received(
            0,
            tail,
            inclined,
            done + frames,
        ),
    decreases frames.len(),
{
    let stream = framing(frames) + tail;
    if frames.len() == 0 {
        assert(stream =~= tail);
        assert(done + frames =~= done);
    } else {
        let rest = framing(frames.drop_first()) + tail;
        assert(stream.drop_first() =~= on_stream(frames[0]) + rest);
        lemma_payload(Seq::empty(), frames[0], rest, inclined, done);
        assert(Seq::<u8>::empty() + frames[0] =~= frames[0]);
        lemma_frames(frames.drop_first(), tail, inclined, done.push(frames[0]));
        assert(done.push(frames[0]) + frames.drop_first() =~= done + frames);
    }
}

proof fn lemma_short(
    part: Seq<u8>,
    short: Seq<u8>,
    remain: nat,
    inclined: spec_fn(nat) -> nat,
    done: Seq<Seq<u8>>,
)
    requires
        short.len() < remain,
    ensures
        received(remain, on_stream(short), inclined, done.push(part)) is None,
    decreases short.len(),
{
    if short.len() > 0 {
        let n = lemma_chunk(part, short, remain, Seq::empty(), inclined, done);
        let rest = short.skip(n as int);
        assert(on_stream(short) + Seq::<Token>::empty() =~= on_stream(short));
        assert(on_stream(rest) + Seq::<Token>::empty() =~= on_stream(rest));
        lemma_short(part + short.take(n as int), rest, (remain - n) as nat, inclined, done);
    }
}

/// A group arrives as it was sent: whatever chunks its frames were sent in, and whatever chunks
/// the stream hands out, the receiver makes the same frames of it, with the same payloads, and
/// does not fail.
pub proof fn law_group_arrives(frames: Seq<(nat, Seq<Seq<u8>>)>, inclined: spec_fn(nat) -> nat)
    requires
        sends_group(frames),
    ensures
        received(0, sent(frames), inclined, Seq::empty()) == Some(payloads(frames)),
{
    law_group_is_framed(frames);
    law_stream_is_received_as_its_frames(sent(frames), inclined, payloads(frames));
}

/// Whether a stream carries frames and nothing else.
pub open spec fn is_framing(stream: Seq<Token>) -> bool {
    exists|frames: Seq<Seq<u8>>| stream == framing(frames)
}

proof fn lemma_received(
    remain: nat,
    stream: Seq<Token>,
    inclined: spec_fn(nat) -> nat,
    frames: Seq<Seq<u8>>,
) -> (r: (Seq<u8>, Seq<Seq<u8>>))
    requires
        received(remain, stream, inclined, frames) is Some,
        remain > 0 ==> frames.len() > 0,
    ensures
        r.0.len() == remain,
        stream == on_stream(r.0) + framing(r.1),
        received(remain, stream, inclined, frames) == Some(
            if remain == 0 {
                frames + r.1
            } else {
                frames.drop_last().push(frames.last() + r.0) + r.1
            },
        ),
    decreases stream.len(),
{
    if stream.len() == 0 {
        let none = Seq::<Seq<u8>>::empty();
        assert(stream =~= on_stream(Seq::empty()) + framing(none));
        assert(frames + none =~= frames);
        (Seq::empty(), none)
    } else if remain == 0 {
        let size = stream[0]->Head_0;
        let opened = frames.push(Seq::empty());
        let (payload, rest) = lemma_received(size, stream.drop_first(), inclined, opened);
        let all = seq![payload] + rest;
        assert(all.drop_first() =~= rest);
        assert(all[0] == payload);
        assert(stream =~= seq![Token::Head(size)] + stream.drop_first());
        assert(framing(all) =~= stream);
        assert(stream =~= on_stream(Seq::empty()) + framing(all));
        assert(Seq::<u8>::empty() + payload =~= payload);
        if size == 0 {
            assert(payload =~= Seq::empty());
            assert(opened + rest =~= frames + all);
        } else {
            assert(opened.drop_last().push(payload) + rest =~= frames + all);
        }
        (Seq::empty(), all)
    } else {
        let n = handed_out(remain, stream, inclined);
        let chunk = front(stream, n)->0;
        let grown = frames.drop_last().push(frames.last() + chunk);
        let (payload, rest) = lemma_received(
            (remain - n) as nat,
            stream.skip(n as int),
            inclined,
            grown,
        );
        let whole = chunk + payload;
        assert(stream =~= on_stream(whole) + framing(rest)) by {
            assert(stream =~= stream.take(n as int) + stream.skip(n as int));
            assert(stream.take(n as int) =~= on_stream(chunk));
            assert(on_stream(whole) =~= on_stream(chunk) + on_stream(payload));
        }
        if remain == n {
            assert(whole =~= chunk);
        } else {
            assert(grown.drop_last() =~= frames.drop_last());
            assert((frames.last() + chunk) + payload =~= frames.last() + whole);
        }
        (whole, rest)
    }
}

/// A stream is received exactly where it is a framing, as the frames that it is the framing of,
/// whatever chunks it hands out. Every other stream is refused.
pub proof fn law_stream_is_received_as_its_frames(
    stream: Seq<Token>,
    inclined: spec_fn(nat) -> nat,
    frames: Seq<Seq<u8>>,
)
    ensures
        received(0, stream, inclined, Seq::empty()) == Some(frames) <==> stream == framing(frames),
        received(0, stream, inclined, Seq::empty()) is Some <==> is_framing(stream),
{
    let result = received(0, stream, inclined, Seq::empty());
    assert forall|any: Seq<Seq<u8>>| stream == framing(any) implies result == Some(any) by {
        lemma_frames(any, Seq::empty(), inclined, Seq::empty());
        assert(framing(any) + Seq::<Token>::empty() =~= framing(any));
        assert(Seq::<Seq<u8>>::empty() + any =~= any);
    }
    if result is Some {
        let (none, all) = lemma_received(0, stream, inclined, Seq::empty());
        assert(on_stream(none) + framing(all) =~= framing(all));
        assert(Seq::<Seq<u8>>::empty() + all =~= all);
    }
}

/// A stream that ends within a frame is refused, whatever chunks it hands out: the receiver never
/// takes a part of a frame for the frame.
pub proof fn law_truncated_frame_is_refused(
    frames: Seq<Seq<u8>>,
    size: nat,
    short: Seq<u8>,
    inclined: spec_fn(nat) -> nat,
)
    requires
        short.len() < size,
    ensures
        received(
            0,
            framing(frames) + (seq![Token::Head(size)] + on_stream(short)),
            inclined,
            Seq::empty(),
        ) is None,
{
    let tail = seq![Token::Head(size)] + on_stream(short);
    lemma_frames(frames, tail, inclined, Seq::empty());
    assert(tail.drop_first() =~= on_stream(short));
    lemma_short(Seq::empty(), short, size, inclined, Seq::empty() + frames);
}

/// A frame keeps account of its bytes, chunk by chunk. A chunk is sent, or received, exactly where
/// it does not exceed what remains of the frame, an empty one too, and takes its bytes off that. A
/// chunk never closes the frame that is sent; its end does, exactly where nothing remains. The end
/// of the stream within a frame is never received.
pub proof fn law_chunks_are_accounted_for(remain: nat, bytes: Bytes)
    ensures
        ({
            let n = crate::buffer::payload(bytes).len();
            let to_send = sends(remain, chunk_view(Some(bytes)));
            let to_receive = receives(remain, chunk_view(Some(bytes)));
            &&& to_send is Some <==> n <= remain
            &&& to_send matches Some(open) ==> (open matches Some(rest) && rest + n == remain)
            &&& to_receive is Some <==> n <= remain
            &&& to_receive matches Some(rest) ==> rest + n == remain
        }),
        sends(remain, chunk_view(None)) is Some <==> remain == 0,
        sends(remain, chunk_view(None)) matches Some(open) ==> open is None,
        receives(remain, chunk_view(None)) is None,
{
}

} // verus!
