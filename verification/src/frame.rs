//! The wire unit: a four-byte little-endian length followed by that many
//! payload bytes.

use vstd::prelude::*;

verus! {

/// The largest payload a frame may carry, in bytes (1 MiB).
pub const MAX_FRAME: usize = 1048576;

/// The length of a frame header, in bytes.
pub const HEADER_LEN: usize = 4;

/// Why a frame cannot be built or accepted.
#[derive(Debug, Clone, Copy, PartialEq, Eq, Structural)]
pub enum FrameError {
    /// The payload length exceeds `MAX_FRAME`.
    TooLarge,
}

/// The four header bytes that announce a payload of `len` bytes.
pub open spec fn header_of(len: nat) -> Seq<u8> {
    seq![
        (len % 256) as u8,
        ((len / 256) % 256) as u8,
        ((len / 65536) % 256) as u8,
        ((len / 16777216) % 256) as u8,
    ]
}

/// The payload length that a header announces.
pub open spec fn header_length(header: Seq<u8>) -> nat
    recommends
        header.len() == 4,
{
    (header[0] as nat) + 256 * (header[1] as nat) + 65536 * (header[2] as nat) + 16777216 * (
    header[3] as nat)
}

/// The frame that carries `payload`: its header, then the payload itself.
pub open spec fn frame_of(payload: Seq<u8>) -> Seq<u8> {
    header_of(payload.len()) + payload
}

/// Reading a header back gives the length it was written for.
pub proof fn lemma_header_round_trip(len: nat)
    requires
        len < 0x1_0000_0000,
    ensures
        header_of(len).len() == 4,
        header_length(header_of(len)) == len,
{
}

/// Writes the header for a payload of `len` bytes, a length that four bytes
/// can hold.
pub fn encode_header(len: usize) -> (header: Vec<u8>)
    requires
        len <= 0xffff_ffff,
    ensures
        header@ == header_of(len as nat),
{
    let mut header: Vec<u8> = Vec::with_capacity(4);
    header.push((len % 256) as u8);
    header.push(((len / 256) % 256) as u8);
    header.push(((len / 65536) % 256) as u8);
    header.push(((len / 16777216) % 256) as u8);
    assert(header@ =~= header_of(len as nat));
    header
}

/// The payload length that four header bytes announce.
fn header_value(b0: u8, b1: u8, b2: u8, b3: u8) -> (length: u64)
    ensures
        length == header_length(seq![b0, b1, b2, b3]),
{
    (b0 as u64) + 256 * (b1 as u64) + 65536 * (b2 as u64) + 16777216 * (b3 as u64)
}

/// Reads a header: the payload length it announces, or `TooLarge` where that
/// length exceeds `MAX_FRAME`.
pub fn decode_header(header: &[u8; 4]) -> (result: Result<usize, FrameError>)
    ensures
        header_length(header@) <= MAX_FRAME ==> result == Ok::<usize, FrameError>(
            header_length(header@) as usize,
        ),
        header_length(header@) > MAX_FRAME ==> result == Err::<usize, FrameError>(
            FrameError::TooLarge,
        ),
{
    let length = header_value(header[0], header[1], header[2], header[3]);
    assert(header@ =~= seq![header@[0], header@[1], header@[2], header@[3]]);
    if length > MAX_FRAME as u64 {
        Err(FrameError::TooLarge)
    } else {
        Ok(length as usize)
    }
}

/// Appends the bytes of a slice to a vector.
fn append_bytes(out: &mut Vec<u8>, bytes: &[u8])
    ensures
        final(out)@ == old(out)@ + bytes@,
{
    let mut i: usize = 0;
    while i < bytes.len()
        invariant
            i <= bytes@.len(),
            out@ == old(out)@ + bytes@.take(i as int),
        decreases bytes@.len() - i,
    {
        out.push(bytes[i]);
        assert(out@ =~= old(out)@ + bytes@.take(i as int + 1));
        i = i + 1;
    }
    assert(bytes@.take(i as int) =~= bytes@);
}

/// Builds the frame that carries a payload, header and body in one buffer,
/// so that a single write puts the whole frame on the wire. A payload
/// longer than `MAX_FRAME` is refused.
pub fn encode_frame(payload: &[u8]) -> (result: Result<Vec<u8>, FrameError>)
    ensures
        payload@.len() <= MAX_FRAME ==> result is Ok && result->Ok_0@ == frame_of(payload@),
        payload@.len() > MAX_FRAME ==> result == Err::<Vec<u8>, FrameError>(FrameError::TooLarge),
{
    if payload.len() > MAX_FRAME {
        return Err(FrameError::TooLarge);
    }
    let mut frame = encode_header(payload.len());
    append_bytes(&mut frame, payload);
    Ok(frame)
}

/// What the front of a byte stream holds.
pub enum FrameView {
    /// More bytes are needed before anything can be said.
    Incomplete,
    /// The header announces more than `MAX_FRAME` bytes.
    Oversized,
    /// A whole frame with this payload, taking up `4 + payload.len()` bytes.
    Whole(Seq<u8>),
}

/// What the front of `bytes` holds.
pub open spec fn first_frame(bytes: Seq<u8>) -> FrameView {
    if bytes.len() < HEADER_LEN {
        FrameView::Incomplete
    } else if header_length(bytes.take(4)) > MAX_FRAME {
        FrameView::Oversized
    } else if bytes.len() < HEADER_LEN + header_length(bytes.take(4)) {
        FrameView::Incomplete
    } else {
        FrameView::Whole(bytes.subrange(4, 4 + header_length(bytes.take(4)) as int))
    }
}

/// A frame decodes to the payload it was built from, whatever follows it.
pub proof fn law_frame_round_trip(payload: Seq<u8>, rest: Seq<u8>)
    requires
        payload.len() <= MAX_FRAME,
    ensures
        frame_of(payload).len() == 4 + payload.len(),
        frame_of(payload).take(4) == header_of(payload.len()),
        first_frame(frame_of(payload) + rest) == FrameView::Whole(payload),
{
    lemma_header_round_trip(payload.len());
    let bytes = frame_of(payload) + rest;
    assert(bytes.take(4) =~= header_of(payload.len()));
    assert(frame_of(payload).take(4) =~= header_of(payload.len()));
    assert(bytes.subrange(4, 4 + payload.len() as int) =~= payload);
}

/// A frame is whole only once its last byte is in: every shorter front of it
/// is incomplete, and lacks the rest of the header or, after that, the rest of
/// the body.
pub proof fn law_frame_needs_every_byte(payload: Seq<u8>, got: int)
    requires
        payload.len() <= MAX_FRAME,
        0 <= got < 4 + payload.len(),
    ensures
        first_frame(frame_of(payload).take(got)) == FrameView::Incomplete,
        got < 4 ==> missing(frame_of(payload).take(got)) == 4 - got,
        got >= 4 ==> missing(frame_of(payload).take(got)) == 4 + payload.len() - got,
{
    lemma_header_round_trip(payload.len());
    if got >= 4 {
        assert(frame_of(payload).take(got).take(4) =~= header_of(payload.len()));
    }
}

/// Takes the first frame off the front of `bytes`: its payload, and how many
/// bytes the frame took up; `Ok(None)` while the frame is incomplete.
pub fn decode_frame(bytes: &[u8]) -> (result: Result<Option<(Vec<u8>, usize)>, FrameError>)
    ensures
        match first_frame(bytes@) {
            FrameView::Incomplete => result == Ok::<Option<(Vec<u8>, usize)>, FrameError>(None),
            FrameView::Oversized => result == Err::<Option<(Vec<u8>, usize)>, FrameError>(
                FrameError::TooLarge,
            ),
            FrameView::Whole(payload) => result matches Ok(Some((body, used))) && body@ == payload
                && used == 4 + payload.len(),
        },
{
    if bytes.len() < HEADER_LEN {
        return Ok(None);
    }
    let announced = header_value(bytes[0], bytes[1], bytes[2], bytes[3]);
    assert(bytes@.take(4) =~= seq![bytes@[0], bytes@[1], bytes@[2], bytes@[3]]);
    if announced > MAX_FRAME as u64 {
        return Err(FrameError::TooLarge);
    }
    let length = announced as usize;
    if bytes.len() - HEADER_LEN < length {
        return Ok(None);
    }
    let body = vstd::slice::slice_to_vec(
        vstd::slice::slice_subrange(bytes, HEADER_LEN, HEADER_LEN + length),
    );
    Ok(Some((body, HEADER_LEN + length)))
}

/// What a read on the socket brought.
#[derive(Debug, PartialEq, Eq)]
pub enum ReadEvent {
    /// The bytes that were read; none at all where the peer has closed.
    Data(Vec<u8>),
    /// Nothing was ready after all.
    WouldBlock,
    /// The read failed.
    Failed,
}

/// What the connection's reader does next.
#[derive(Debug, PartialEq, Eq)]
pub enum ReadStep {
    /// Read again, at most as many bytes as the frame in progress lacks.
    ReadMore,
    /// A frame is complete: hand its payload on, then read again.
    Deliver(Vec<u8>),
    /// The peer closed or the read failed: end the connection.
    Close,
    /// The peer broke the framing: end the connection.
    Abort(FrameError),
}

/// The bytes of a frame that is under way and not yet whole.
pub open spec fn in_progress(pending: Seq<u8>) -> bool {
    first_frame(pending) is Incomplete
}

/// How many bytes a frame under way still lacks: the rest of its header, or,
/// once the header is in, the rest of its body.
pub open spec fn missing(pending: Seq<u8>) -> nat {
    if pending.len() < HEADER_LEN {
        (HEADER_LEN - pending.len()) as nat
    } else {
        (HEADER_LEN + header_length(pending.take(4)) - pending.len()) as nat
    }
}

/// The reader of one connection: it gathers the header, then the body, over
/// as many reads as it takes.
pub struct FrameReader {
    buffer: Vec<u8>,
}

impl FrameReader {
    /// The bytes of the frame under way that have come in.
    pub closed spec fn pending(&self) -> Seq<u8> {
        self.buffer@
    }

    /// The bytes held are the front of a frame that is not yet whole.
    pub open spec fn wf(&self) -> bool {
        in_progress(self.pending())
    }

    /// A reader at the start of a frame.
    pub fn new() -> (reader: Self)
        ensures
            reader.wf(),
            reader.pending() == Seq::<u8>::empty(),
    {
        FrameReader { buffer: Vec::new() }
    }

    /// How many bytes the next read may take at most.
    pub fn wanted(&self) -> (count: usize)
        requires
            self.wf(),
        ensures
            count == missing(self.pending()),
            count > 0,
    {
        if self.buffer.len() < HEADER_LEN {
            HEADER_LEN - self.buffer.len()
        } else {
            let announced = header_value(
                self.buffer[0],
                self.buffer[1],
                self.buffer[2],
                self.buffer[3],
            );
            assert(self.buffer@.take(4) =~= seq![
                self.buffer@[0],
                self.buffer@[1],
                self.buffer@[2],
                self.buffer@[3],
            ]);
            HEADER_LEN + (announced as usize) - self.buffer.len()
        }
    }

    /// Takes in what a read brought and says what to do next. Bytes are
    /// gathered until the frame is whole; a read of no bytes means that the
    /// peer has closed; a header that announces too much aborts before any of
    /// the body is taken in.
    pub fn on_read(&mut self, event: ReadEvent) -> (step: ReadStep)
        requires
            old(self).wf(),
            event matches ReadEvent::Data(data) ==> data@.len() <= missing(old(self).pending()),
        ensures
            final(self).wf(),
            match event {
                ReadEvent::Data(data) => if data@.len() == 0 {
                    step is Close && final(self).pending() == old(self).pending()
                } else {
                    match first_frame(old(self).pending() + data@) {
                        FrameView::Incomplete => step is ReadMore && final(self).pending() == old(
                            self,
                        ).pending() + data@,
                        FrameView::Oversized => step == ReadStep::Abort(FrameError::TooLarge)
                            && final(self).pending() == Seq::<u8>::empty(),
                        FrameView::Whole(payload) => step matches ReadStep::Deliver(body) && body@
                            == payload && old(self).pending() + data@ == frame_of(payload)
                            && final(self).pending() == Seq::<u8>::empty(),
                    }
                },
                ReadEvent::WouldBlock => step is ReadMore && final(self).pending() == old(
                    self,
                ).pending(),
                ReadEvent::Failed => step is Close && final(self).pending() == old(self).pending(),
            },
    {
        let data = match event {
            ReadEvent::Data(data) => data,
            ReadEvent::WouldBlock => {
                return ReadStep::ReadMore;
            },
            ReadEvent::Failed => {
                return ReadStep::Close;
            },
        };
        if data.len() == 0 {
            return ReadStep::Close;
        }
        append_bytes(&mut self.buffer, data.as_slice());
        let ghost all = self.buffer@;
        let ghost before = old(self).pending();
        proof {
            if before.len() >= 4 {
                assert(all.take(4) =~= before.take(4));
            }
        }
        match decode_frame(self.buffer.as_slice()) {
            Ok(None) => ReadStep::ReadMore,
            Ok(Some((body, used))) => {
                proof {
                    let length = header_length(all.take(4));
                    assert(all.len() == 4 + length);
                    lemma_header_of_length(all.take(4));
                    assert(all =~= frame_of(body@));
                }
                self.buffer.clear();
                ReadStep::Deliver(body)
            },
            Err(error) => {
                self.buffer.clear();
                ReadStep::Abort(error)
            },
        }
    }
}

/// Four bytes are the header of the length they announce.
pub proof fn lemma_header_of_length(header: Seq<u8>)
    requires
        header.len() == 4,
    ensures
        header_of(header_length(header)) == header,
{
    let b0 = header[0] as int;
    let b1 = header[1] as int;
    let b2 = header[2] as int;
    let b3 = header[3] as int;
    let n = header_length(header) as int;
    let r1 = b1 + 256 * b2 + 65536 * b3;
    let r2 = b2 + 256 * b3;
    vstd::arithmetic::div_mod::lemma_fundamental_div_mod_converse(n, 256, r1, b0);
    vstd::arithmetic::div_mod::lemma_fundamental_div_mod_converse(r1, 256, r2, b1);
    vstd::arithmetic::div_mod::lemma_fundamental_div_mod_converse(r2, 256, b3, b2);
    vstd::arithmetic::div_mod::lemma_fundamental_div_mod_converse(n, 65536, r2, b0 + 256 * b1);
    vstd::arithmetic::div_mod::lemma_fundamental_div_mod_converse(
        n,
        16777216,
        b3,
        b0 + 256 * b1 + 65536 * b2,
    );
    vstd::arithmetic::div_mod::lemma_fundamental_div_mod_converse(b3, 256, 0, b3);
    assert(header_of(header_length(header)) =~= header);
}

} // verus!
