use vstd::prelude::*;

verus! {

/// The length of the prefix of a frame, in bytes.
pub const HEADER_LEN: usize = 4;

/// The longest payload that a frame may carry: 8 MiB.
pub const MAX_FRAME_LEN: usize = 8388608;

/// Why a frame could not be written or read.
#[derive(Clone, Copy, Debug, PartialEq, Eq, Structural)]
pub enum FrameError {
    /// The payload is longer than [`MAX_FRAME_LEN`].
    TooLarge,
}

/// The four bytes of `n`, the most significant first.
pub open spec fn be32(n: nat) -> Seq<u8> {
    seq![
        ((n / 16777216) % 256) as u8,
        ((n / 65536) % 256) as u8,
        ((n / 256) % 256) as u8,
        (n % 256) as u8,
    ]
}

/// The number that the first four bytes of `bytes` spell, the most
/// significant first.
pub open spec fn be32_value(bytes: Seq<u8>) -> nat {
    (bytes[0] as nat) * 16777216 + (bytes[1] as nat) * 65536 + (bytes[2] as nat) * 256 + (
    bytes[3] as nat)
}

/// The frame of `payload`: its length in four bytes, then the payload.
pub open spec fn framed(payload: Seq<u8>) -> Seq<u8> {
    be32(payload.len()) + payload
}

/// What the front of a byte stream holds.
pub ghost enum Front {
    /// A whole frame: its payload, and how many bytes it takes up.
    Frame { payload: Seq<u8>, consumed: int },
    /// The beginning of a frame; more bytes are needed.
    Incomplete,
    /// A prefix that announces more than a frame may carry.
    TooLarge,
}

/// What the front of `bytes` holds.
pub open spec fn front(bytes: Seq<u8>) -> Front {
    if bytes.len() < HEADER_LEN {
        Front::Incomplete
    } else {
        let n = be32_value(bytes);
        if n > MAX_FRAME_LEN {
            Front::TooLarge
        } else if bytes.len() < HEADER_LEN + n {
            Front::Incomplete
        } else {
            Front::Frame {
                payload: bytes.subrange(HEADER_LEN as int, HEADER_LEN + n),
                consumed: HEADER_LEN + n,
            }
        }
    }
}

/// The frames of `payloads`, one after the other.
pub open spec fn wire(payloads: Seq<Seq<u8>>) -> Seq<u8>
    decreases payloads.len(),
{
    if payloads.len() == 0 {
        Seq::empty()
    } else {
        framed(payloads[0]) + wire(payloads.drop_first())
    }
}

/// The payloads of the whole frames at the front of `bytes`, in the order
/// in which they stand there.
pub open spec fn frames(bytes: Seq<u8>) -> Seq<Seq<u8>>
    decreases bytes.len(),
{
    match front(bytes) {
        Front::Frame { payload, consumed } => seq![payload] + frames(
            bytes.subrange(consumed as int, bytes.len() as int),
        ),
        _ => Seq::empty(),
    }
}

/// The prefix of a frame spells the length of its payload.
pub proof fn lemma_be32(n: nat)
    requires
        n < 4294967296,
    ensures
        be32(n).len() == 4,
        be32_value(be32(n)) == n,
{
    let b = be32(n);
    assert(b[0] == ((n / 16777216) % 256) as u8);
    assert(b[1] == ((n / 65536) % 256) as u8);
    assert(b[2] == ((n / 256) % 256) as u8);
    assert(b[3] == (n % 256) as u8);
    assert(n == (n / 16777216) * 16777216 + ((n / 65536) % 256) * 65536 + ((n / 256) % 256) * 256
        + (n % 256)) by (nonlinear_arith)
        requires
            n < 4294967296,
    ;
    assert((n / 16777216) % 256 == n / 16777216) by (nonlinear_arith)
        requires
            n < 4294967296,
    ;
}

/// A frame that is followed by anything reads back as its payload, and
/// takes up its own length.
pub proof fn lemma_front_of_frame(payload: Seq<u8>, rest: Seq<u8>)
    requires
        payload.len() <= MAX_FRAME_LEN,
    ensures
        front(framed(payload) + rest) == (Front::Frame {
            payload,
            consumed: HEADER_LEN + payload.len(),
        }),
{
    lemma_be32(payload.len());
    let bytes = framed(payload) + rest;
    assert(bytes[0] == be32(payload.len())[0]);
    assert(bytes[1] == be32(payload.len())[1]);
    assert(bytes[2] == be32(payload.len())[2]);
    assert(bytes[3] == be32(payload.len())[3]);
    assert(be32_value(bytes) == be32_value(be32(payload.len())));
    assert(bytes.subrange(HEADER_LEN as int, HEADER_LEN + payload.len()) =~= payload);
}

/// Frames keep their order: what is read from the frames of `payloads`,
/// written one after the other, is `payloads`, each payload once and in the
/// order in which it was written.
pub proof fn frames_keep_order(payloads: Seq<Seq<u8>>)
    requires
        forall|i: int| 0 <= i < payloads.len() ==> (#[trigger] payloads[i]).len() <= MAX_FRAME_LEN,
    ensures
        frames(wire(payloads)) == payloads,
    decreases payloads.len(),
{
    if payloads.len() == 0 {
        assert(frames(wire(payloads)) =~= payloads);
    } else {
        let first = payloads[0];
        let rest = payloads.drop_first();
        let bytes = wire(payloads);
        lemma_front_of_frame(first, wire(rest));
        assert(bytes.subrange(HEADER_LEN + first.len(), bytes.len() as int) =~= wire(rest));
        assert forall|i: int| 0 <= i < rest.len() implies (#[trigger] rest[i]).len()
            <= MAX_FRAME_LEN by {
            assert(rest[i] == payloads[i + 1]);
        }
        frames_keep_order(rest);
        assert(seq![first] + rest =~= payloads);
    }
}

/// Writes the frame of `payload`. Fails where the payload is longer than a
/// frame may carry.
pub fn encode_frame(payload: &Vec<u8>) -> (r: Result<Vec<u8>, FrameError>)
    ensures
        match r {
            Ok(bytes) => payload@.len() <= MAX_FRAME_LEN && bytes@ == framed(payload@),
            Err(error) => payload@.len() > MAX_FRAME_LEN && error == FrameError::TooLarge,
        },
{
    if payload.len() > MAX_FRAME_LEN {
        return Err(FrameError::TooLarge);
    }
    let n: u32 = payload.len() as u32;
    let mut bytes: Vec<u8> = Vec::new();
    bytes.push(((n / 16777216) % 256) as u8);
    bytes.push(((n / 65536) % 256) as u8);
    bytes.push(((n / 256) % 256) as u8);
    bytes.push((n % 256) as u8);
    assert(bytes@ =~= be32(payload@.len()));
    let mut i: usize = 0;
    while i < payload.len()
        invariant
            i <= payload.len(),
            bytes@ == be32(payload@.len()) + payload@.subrange(0, i as int),
        decreases payload.len() - i,
    {
        bytes.push(payload[i]);
        assert(bytes@ =~= be32(payload@.len()) + payload@.subrange(0, i + 1));
        i += 1;
    }
    assert(payload@.subrange(0, i as int) =~= payload@);
    Ok(bytes)
}

/// Reads the frame at the front of `buffer`: its payload, and how many
/// bytes of the buffer it takes up. `None` where the buffer holds only the
/// beginning of a frame. Fails where the prefix announces more than a
/// frame may carry.
pub fn decode_frame(buffer: &Vec<u8>) -> (r: Result<Option<(Vec<u8>, usize)>, FrameError>)
    ensures
        match front(buffer@) {
            Front::Frame { payload, consumed } => r is Ok && r->Ok_0 is Some && r->Ok_0->Some_0.0@
                == payload && r->Ok_0->Some_0.1 == consumed,
            Front::Incomplete => r is Ok && r->Ok_0 is None,
            Front::TooLarge => r == Err::<Option<(Vec<u8>, usize)>, FrameError>(FrameError::TooLarge),
        },
{
    if buffer.len() < HEADER_LEN {
        return Ok(None);
    }
    let announced: u64 = (buffer[0] as u64) * 16777216 + (buffer[1] as u64) * 65536 + (
    buffer[2] as u64) * 256 + (buffer[3] as u64);
    if announced > MAX_FRAME_LEN as u64 {
        return Err(FrameError::TooLarge);
    }
    let n: usize = announced as usize;
    if buffer.len() - HEADER_LEN < n {
        return Ok(None);
    }
    let mut payload: Vec<u8> = Vec::new();
    let mut i: usize = 0;
    while i < n
        invariant
            i <= n,
            HEADER_LEN + n <= buffer.len(),
            payload@ == buffer@.subrange(HEADER_LEN as int, HEADER_LEN + i),
        decreases n - i,
    {
        payload.push(buffer[HEADER_LEN + i]);
        assert(payload@ =~= buffer@.subrange(HEADER_LEN as int, HEADER_LEN + i + 1));
        i += 1;
    }
    Ok(Some((payload, HEADER_LEN + n)))
}

/// The read side of a framed connection: the bytes that have come in and
/// have not been read as frames yet.
pub struct FrameReader {
    buffer: Vec<u8>,
}

impl View for FrameReader {
    type V = Seq<u8>;

    closed spec fn view(&self) -> Seq<u8> {
        self.buffer@
    }
}

impl FrameReader {
    /// A reader that has seen nothing.
    pub fn new() -> (r: FrameReader)
        ensures
            r@ == Seq::<u8>::empty(),
    {
        FrameReader { buffer: Vec::new() }
    }

    /// How many bytes wait to be read as frames.
    pub fn pending(&self) -> (r: usize)
        ensures
            r == self@.len(),
    {
        self.buffer.len()
    }

    /// Takes in the bytes that have arrived.
    pub fn feed(&mut self, bytes: &Vec<u8>)
        ensures
            final(self)@ == old(self)@ + bytes@,
    {
        let mut i: usize = 0;
        while i < bytes.len()
            invariant
                i <= bytes.len(),
                self@ == old(self)@ + bytes@.subrange(0, i as int),
            decreases bytes.len() - i,
        {
            self.buffer.push(bytes[i]);
            assert(self@ =~= old(self)@ + bytes@.subrange(0, i + 1));
            i += 1;
        }
        assert(bytes@.subrange(0, i as int) =~= bytes@);
    }

    /// Takes the next whole frame out of what has arrived and gives its
    /// payload. `None`, and nothing changes, where no whole frame has
    /// arrived yet. Fails, and nothing changes, where the prefix at the
    /// front announces more than a frame may carry.
    pub fn next_frame(&mut self) -> (r: Result<Option<Vec<u8>>, FrameError>)
        ensures
            match front(old(self)@) {
                Front::Frame { payload, consumed } => r is Ok && r->Ok_0 is Some
                    && r->Ok_0->Some_0@ == payload && final(self)@ == old(self)@.subrange(
                    consumed as int,
                    old(self)@.len() as int,
                ),
                Front::Incomplete => r is Ok && r->Ok_0 is None && final(self)@ == old(self)@,
                Front::TooLarge => r == Err::<Option<Vec<u8>>, FrameError>(FrameError::TooLarge)
                    && final(self)@ == old(self)@,
            },
    {
        match decode_frame(&self.buffer) {
            Err(error) => Err(error),
            Ok(None) => Ok(None),
            Ok(Some((payload, consumed))) => {
                let rest = self.buffer.split_off(consumed);
                self.buffer = rest;
                Ok(Some(payload))
            },
        }
    }
}

} // verus!
