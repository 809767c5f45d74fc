//! Frames: how one message is told from the next on a stream of bytes.
//!
//! A stream keeps no boundaries: what one side writes in one piece may reach
//! the other in several, or together with the next. So every message travels
//! as a frame: four bytes that give its length, highest byte first, then the
//! message's own bytes.
use vstd::prelude::*;

verus! {

/// The number of bytes in a frame before the message.
pub const HEADER_LEN: usize = 4;

/// The four bytes that say `len`, highest byte first.
pub open spec fn header_bytes(len: nat) -> Seq<u8> {
    seq![
        (len / 0x100_0000 % 256) as u8,
        (len / 0x1_0000 % 256) as u8,
        (len / 0x100 % 256) as u8,
        (len % 256) as u8,
    ]
}

/// The length that the first four bytes of `s` say.
pub open spec fn header_value(s: Seq<u8>) -> nat {
    (s[0] as nat) * 0x100_0000 + (s[1] as nat) * 0x1_0000 + (s[2] as nat) * 0x100 + (s[3] as nat)
}

/// A message as it travels: its length, then its bytes.
pub open spec fn frame_bytes(payload: Seq<u8>) -> Seq<u8> {
    header_bytes(payload.len()) + payload
}

/// Whether a whole frame stands at the front of `s`.
pub open spec fn frame_at_front(s: Seq<u8>) -> bool {
    s.len() >= 4 && 4 + header_value(s) <= s.len()
}

/// A header says the length it was made from.
pub proof fn lemma_header_round_trip(len: nat)
    requires
        len <= u32::MAX,
    ensures
        header_bytes(len).len() == 4,
        header_value(header_bytes(len)) == len,
{
}

/// A frame followed by anything is split again into the message and what
/// followed it.
pub proof fn lemma_frame_round_trip(payload: Seq<u8>, rest: Seq<u8>)
    requires
        payload.len() <= u32::MAX,
    ensures
        frame_at_front(frame_bytes(payload) + rest),
        header_value(frame_bytes(payload) + rest) == payload.len(),
        (frame_bytes(payload) + rest).subrange(4, 4 + payload.len() as int) == payload,
        (frame_bytes(payload) + rest).skip(4 + payload.len() as int) == rest,
{
    let whole = frame_bytes(payload) + rest;
    lemma_header_round_trip(payload.len());
    assert(whole[0] == header_bytes(payload.len())[0]);
    assert(whole[1] == header_bytes(payload.len())[1]);
    assert(whole[2] == header_bytes(payload.len())[2]);
    assert(whole[3] == header_bytes(payload.len())[3]);
    assert(whole.subrange(4, 4 + payload.len() as int) =~= payload);
    assert(whole.skip(4 + payload.len() as int) =~= rest);
}

/// The frame of a message, or `None` for one too long for four bytes to say
/// its length.
pub fn frame(payload: &[u8]) -> (r: Option<Vec<u8>>)
    ensures
        payload@.len() <= u32::MAX ==> r is Some && r.unwrap()@ == frame_bytes(payload@),
        payload@.len() > u32::MAX ==> r is None,
{
    let len = payload.len();
    if len > 0xffff_ffff {
        return None;
    }
    let mut buf: Vec<u8> = Vec::new();
    buf.push((len / 0x100_0000 % 256) as u8);
    buf.push((len / 0x1_0000 % 256) as u8);
    buf.push((len / 0x100 % 256) as u8);
    buf.push((len % 256) as u8);
    assert(buf@ =~= header_bytes(len as nat));
    let mut i: usize = 0;
    while i < len
        invariant
            len == payload@.len(),
            i <= len,
            buf@ == header_bytes(len as nat) + payload@.take(i as int),
        decreases len - i,
    {
        buf.push(payload[i]);
        i = i + 1;
        assert(buf@ =~= header_bytes(len as nat) + payload@.take(i as int));
    }
    assert(payload@.take(len as int) =~= payload@);
    Some(buf)
}

/// The length of the message whose frame begins with `header`, or `None`
/// while fewer than four bytes are there.
pub fn frame_length(header: &[u8]) -> (r: Option<usize>)
    ensures
        header@.len() >= 4 ==> r == Some(header_value(header@) as usize) && header_value(header@)
            <= u32::MAX,
        header@.len() < 4 ==> r is None,
{
    if header.len() < HEADER_LEN {
        return None;
    }
    let value: u32 = (header[0] as u32) * 0x100_0000 + (header[1] as u32) * 0x1_0000 + (
    header[2] as u32) * 0x100 + (header[3] as u32);
    Some(value as usize)
}

/// Where in `buffer` the first message starts and ends, or `None` while the
/// buffer does not hold a whole frame yet. What follows the end belongs to
/// the next frame.
pub fn split_frame(buffer: &[u8]) -> (r: Option<(usize, usize)>)
    ensures
        frame_at_front(buffer@) ==> r == Some((4usize, (4 + header_value(buffer@)) as usize)),
        !frame_at_front(buffer@) ==> r is None,
        r matches Some((start, end)) ==> start <= end <= buffer@.len() && buffer@.take(
            end as int,
        ) == frame_bytes(buffer@.subrange(start as int, end as int)),
{
    match frame_length(buffer) {
        Some(len) => {
            if len <= buffer.len() - HEADER_LEN {
                let end = HEADER_LEN + len;
                proof {
                    let payload = buffer@.subrange(4, end as int);
                    lemma_header_bytes_of_value(buffer@);
                    assert(buffer@.take(end as int) =~= header_bytes(payload.len()) + payload);
                }
                Some((HEADER_LEN, end))
            } else {
                None
            }
        },
        None => None,
    }
}

/// Four bytes put together as one number come apart again as the same four.
proof fn lemma_four_bytes(a: int, b: int, c: int, d: int)
    requires
        0 <= a < 256,
        0 <= b < 256,
        0 <= c < 256,
        0 <= d < 256,
    ensures
        ({
            let v = a * 0x100_0000 + b * 0x1_0000 + c * 0x100 + d;
            &&& 0 <= v <= u32::MAX
            &&& v / 0x100_0000 % 256 == a
            &&& v / 0x1_0000 % 256 == b
            &&& v / 0x100 % 256 == c
            &&& v % 256 == d
        }),
{
    let v = a * 0x100_0000 + b * 0x1_0000 + c * 0x100 + d;
    assert(v / 0x100_0000 == a);
    assert(v / 0x1_0000 == a * 0x100 + b);
    assert(v / 0x100 == a * 0x1_0000 + b * 0x100 + c);
}

/// The first four bytes of a sequence are the header of the length they say.
pub proof fn lemma_header_bytes_of_value(s: Seq<u8>)
    requires
        s.len() >= 4,
    ensures
        header_bytes(header_value(s)) == s.take(4),
        header_value(s) <= u32::MAX,
{
    lemma_four_bytes(s[0] as int, s[1] as int, s[2] as int, s[3] as int);
    let h = header_bytes(header_value(s));
    assert(h[0] == s[0]);
    assert(h[1] == s[1]);
    assert(h[2] == s[2]);
    assert(h[3] == s[3]);
    assert(h =~= s.take(4));
}

} // verus!
