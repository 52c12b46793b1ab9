//! Length-prefixed frames: a four-byte little-endian length, then the body.

use vstd::prelude::*;
use vstd::string::StringSliceAdditionalSpecFns;

verus! {

/// Bytes taken by the length prefix of every frame.
pub const FRAME_HEADER_LEN: usize = 4;

/// Why a frame could not be produced.
#[derive(Debug, Clone, Copy, PartialEq, Eq, Structural)]
pub enum FrameError {
    /// The body is longer than a four-byte length can describe.
    TooLong,
}

/// The four bytes that describe the length `n`, least significant first.
pub open spec fn length_prefix(n: u32) -> Seq<u8> {
    seq![
        (n & 0xff) as u8,
        ((n >> 8u32) & 0xff) as u8,
        ((n >> 16u32) & 0xff) as u8,
        ((n >> 24u32) & 0xff) as u8,
    ]
}

/// The length that four bytes describe, read least significant first.
pub open spec fn prefix_value(b: Seq<u8>) -> u32
    recommends
        b.len() >= 4,
{
    (b[0] as u32) | ((b[1] as u32) << 8u32) | ((b[2] as u32) << 16u32) | ((b[3] as u32) << 24u32)
}

/// The frame that carries `body`.
pub open spec fn frame_bytes(body: Seq<u8>) -> Seq<u8>
    recommends
        body.len() <= u32::MAX,
{
    length_prefix(body.len() as u32) + body
}

/// What a buffer that starts with a whole frame holds: the body and the
/// number of bytes the frame takes; `None` while the frame is incomplete.
pub open spec fn parse_frame(s: Seq<u8>) -> Option<(Seq<u8>, nat)> {
    if s.len() < 4 {
        None
    } else {
        let n = prefix_value(s) as nat;
        if s.len() < 4 + n {
            None
        } else {
            Some((s.subrange(4, 4 + n as int), 4 + n))
        }
    }
}

proof fn lemma_prefix_round_trip(n: u32)
    ensures
        prefix_value(length_prefix(n)) == n,
{
    let b = length_prefix(n);
    let b0 = (n & 0xff) as u8;
    let b1 = ((n >> 8u32) & 0xff) as u8;
    let b2 = ((n >> 16u32) & 0xff) as u8;
    let b3 = ((n >> 24u32) & 0xff) as u8;
    assert(b[0] == b0 && b[1] == b1 && b[2] == b2 && b[3] == b3);
    assert((b0 as u32) | ((b1 as u32) << 8u32) | ((b2 as u32) << 16u32) | ((b3 as u32) << 24u32) == n)
        by (bit_vector)
        requires
            b0 == (n & 0xff) as u8,
            b1 == ((n >> 8u32) & 0xff) as u8,
            b2 == ((n >> 16u32) & 0xff) as u8,
            b3 == ((n >> 24u32) & 0xff) as u8,
    ;
}

/// A frame read back from its bytes gives the body it was written from, and
/// its first four bytes give the body's length, least significant byte first.
pub proof fn lemma_frame_round_trip(body: Seq<u8>, rest: Seq<u8>)
    requires
        body.len() <= u32::MAX,
    ensures
        prefix_value(frame_bytes(body)) as nat == body.len(),
        frame_bytes(body).subrange(0, 4) == length_prefix(body.len() as u32),
        parse_frame(frame_bytes(body)) == Some((body, body.len() + 4)),
        parse_frame(frame_bytes(body) + rest) == Some((body, body.len() + 4)),
{
    let n = body.len() as u32;
    lemma_prefix_round_trip(n);
    let f = frame_bytes(body);
    assert(f.subrange(0, 4) =~= length_prefix(n));
    assert(prefix_value(f) == prefix_value(length_prefix(n)));
    assert(f.subrange(4, 4 + body.len() as int) =~= body);
    let g = f + rest;
    assert(prefix_value(g) == prefix_value(f));
    assert(g.subrange(4, 4 + body.len() as int) =~= body);
}

/// The frame that carries `body`, or `TooLong` when its length does not fit
/// in four bytes.
pub fn encode_frame(body: &[u8]) -> (r: Result<Vec<u8>, FrameError>)
    ensures
        body@.len() <= u32::MAX <==> r is Ok,
        r matches Ok(v) ==> v@ == frame_bytes(body@),
        r matches Err(e) ==> e == FrameError::TooLong,
{
    if body.len() > 0xffff_ffff {
        return Err(FrameError::TooLong);
    }
    let n = body.len() as u32;
    let mut out: Vec<u8> = Vec::new();
    out.push((n & 0xff) as u8);
    out.push(((n >> 8u32) & 0xff) as u8);
    out.push(((n >> 16u32) & 0xff) as u8);
    out.push(((n >> 24u32) & 0xff) as u8);
    let ghost head = out@;
    assert(head =~= length_prefix(n));
    let mut i: usize = 0;
    while i < body.len()
        invariant
            i <= body@.len(),
            out@ == head + body@.subrange(0, i as int),
        decreases body@.len() - i,
    {
        out.push(body[i]);
        i = i + 1;
        assert(out@ =~= head + body@.subrange(0, i as int));
    }
    assert(body@.subrange(0, i as int) =~= body@);
    Ok(out)
}

/// The body length announced by a frame's first four bytes.
pub fn frame_len(header: &[u8]) -> (r: u32)
    requires
        header@.len() >= 4,
    ensures
        r == prefix_value(header@),
{
    (header[0] as u32) | ((header[1] as u32) << 8u32) | ((header[2] as u32) << 16u32) | ((
    header[3] as u32) << 24u32)
}

/// The body of the frame at the start of `buf` and the bytes that frame
/// takes, or `None` when `buf` does not yet hold the whole frame.
pub fn decode_frame(buf: &[u8]) -> (r: Option<(Vec<u8>, usize)>)
    ensures
        r is Some <==> parse_frame(buf@) is Some,
        r matches Some((body, used)) ==> parse_frame(buf@) == Some((body@, used as nat)),
{
    if buf.len() < 4 {
        return None;
    }
    let n = frame_len(buf) as usize;
    if buf.len() - 4 < n {
        return None;
    }
    let mut body: Vec<u8> = Vec::with_capacity(n);
    let mut i: usize = 0;
    while i < n
        invariant
            i <= n,
            4 + n <= buf@.len(),
            buf@.len() == buf.len(),
            body@ == buf@.subrange(4, 4 + i as int),
        decreases n - i,
    {
        body.push(buf[4 + i]);
        i = i + 1;
        assert(body@ =~= buf@.subrange(4, 4 + i as int));
    }
    Some((body, n + 4))
}

/// The two frames of a method call: the method's name, then its argument
/// bytes (an empty frame when the call takes no argument).
pub fn encode_method_call(method: &str, args: &[u8]) -> (r: Result<Vec<u8>, FrameError>)
    ensures
        (method.spec_bytes().len() <= u32::MAX && args@.len() <= u32::MAX) <==> r is Ok,
        r matches Ok(v) ==> v@ == frame_bytes(method.spec_bytes()) + frame_bytes(args@),
        r matches Err(e) ==> e == FrameError::TooLong,
{
    let name = method.as_bytes();
    let mut out = encode_frame(name)?;
    let mut second = encode_frame(args)?;
    out.append(&mut second);
    Ok(out)
}

} // verus!
