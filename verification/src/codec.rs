//! The line codec: between a raw byte stream and discrete newline-terminated
//! text frames, in both directions, over a `bytes::BytesMut` buffer.

use vstd::prelude::*;
use vstd::utf8::*;
use crate::buffer::buf_bytes;
use crate::buffer::buf_get;
use crate::buffer::buf_len;
use crate::buffer::buf_put_slice;
use crate::buffer::buf_put_u8;
use crate::buffer::buf_reserve;
use crate::buffer::buf_split_to;
use crate::buffer::buf_to_vec;
use crate::protocol::BridgeError;
use crate::protocol::Command;
use crate::protocol::opcode_of;

verus! {

/// The frame terminator: the ASCII line feed byte.
pub const LF: u8 = 10;

/// The index of the first line feed byte in a byte sequence, if any.
pub open spec fn find_newline(s: Seq<u8>) -> Option<int>
    decreases s.len(),
{
    if s.len() == 0 {
        None
    } else if s[0] == LF {
        Some(0)
    } else {
        match find_newline(s.drop_first()) {
            Some(i) => Some(i + 1),
            None => None,
        }
    }
}

/// The bytes a message occupies on the wire: its UTF-8 encoding followed by
/// exactly one line feed.
pub open spec fn frame_bytes(msg: Seq<char>) -> Seq<u8> {
    encode_utf8(msg) + seq![LF]
}

/// A line feed at `i` with none before it is the first one.
pub proof fn lemma_find_newline_at(s: Seq<u8>, i: int)
    requires
        0 <= i < s.len(),
        s[i] == LF,
        forall|k: int| 0 <= k < i ==> s[k] != LF,
    ensures
        find_newline(s) == Some(i),
    decreases i,
{
    if i > 0 {
        let t = s.drop_first();
        assert(t[i - 1] == s[i]);
        assert forall|k: int| 0 <= k < i - 1 implies t[k] != LF by {
            assert(t[k] == s[k + 1]);
        }
        lemma_find_newline_at(t, i - 1);
    }
}

/// A sequence without a line feed has no first one.
pub proof fn lemma_find_newline_none(s: Seq<u8>)
    requires
        forall|k: int| 0 <= k < s.len() ==> s[k] != LF,
    ensures
        find_newline(s) is None,
    decreases s.len(),
{
    if s.len() > 0 {
        let t = s.drop_first();
        assert forall|k: int| 0 <= k < t.len() implies t[k] != LF by {
            assert(t[k] == s[k + 1]);
        }
        lemma_find_newline_none(t);
    }
}

/// UTF-8 encoding distributes over concatenation.
pub proof fn lemma_encode_utf8_concat(a: Seq<char>, b: Seq<char>)
    ensures
        encode_utf8(a + b) == encode_utf8(a) + encode_utf8(b),
    decreases a.len(),
{
    if a.len() == 0 {
        assert(a + b =~= b);
        assert(encode_utf8(a) + encode_utf8(b) =~= encode_utf8(b));
    } else {
        assert((a + b).len() > 0);
        assert((a + b)[0] == a[0]);
        assert((a + b).drop_first() =~= a.drop_first() + b);
        lemma_encode_utf8_concat(a.drop_first(), b);
        assert(encode_utf8(a + b) =~= encode_scalar(a[0] as u32) + encode_utf8(
            a.drop_first() + b,
        ));
        assert(encode_scalar(a[0] as u32) + (encode_utf8(a.drop_first()) + encode_utf8(b)) =~= (
        encode_scalar(a[0] as u32) + encode_utf8(a.drop_first())) + encode_utf8(b));
    }
}

/// The line feed character encodes as the single line feed byte.
proof fn lemma_newline_encoding()
    ensures
        encode_utf8(seq!['\n']) == seq![LF],
{
    let s = seq!['\n'];
    assert('\n' as u32 == 10);
    assert((10u32 & 0x7F) == 10) by (bit_vector);
    assert(encode_scalar(10) =~= seq![LF]);
    assert(s.drop_first().len() == 0);
    assert(encode_utf8(s) =~= encode_scalar(10) + encode_utf8(s.drop_first()));
    assert(encode_utf8(s) =~= seq![LF]);
}

/// Law: frame integrity of the codec, both directions. A message without a
/// line feed in its encoding occupies the buffer as one whole frame: whatever
/// bytes follow it, the first line feed is its terminator, the bytes before
/// the terminator are exactly the message's, the frame is valid text, and it
/// decodes back to the message followed by the terminator.
pub proof fn lemma_encode_decode_round_trip(msg: Seq<char>, rest: Seq<u8>)
    requires
        !encode_utf8(msg).contains(LF),
    ensures
        find_newline(frame_bytes(msg) + rest) == Some(encode_utf8(msg).len() as int),
        (frame_bytes(msg) + rest).subrange(0, frame_bytes(msg).len() as int) == frame_bytes(msg),
        (frame_bytes(msg) + rest).subrange(
            frame_bytes(msg).len() as int,
            (frame_bytes(msg) + rest).len() as int,
        ) == rest,
        valid_utf8(frame_bytes(msg)),
        decode_utf8(frame_bytes(msg)) == msg.push('\n'),
{
    let enc = encode_utf8(msg);
    let fb = frame_bytes(msg);
    let all = fb + rest;
    let n = enc.len() as int;
    assert(fb[n] == LF);
    assert(all[n] == LF);
    assert forall|k: int| 0 <= k < n implies all[k] != LF by {
        assert(all[k] == enc[k]);
        if enc[k] == LF {
            assert(enc.contains(LF));
        }
    }
    lemma_find_newline_at(all, n);
    assert(all.subrange(0, n + 1) =~= fb);
    assert(all.subrange(n + 1, all.len() as int) =~= rest);
    assert(msg + seq!['\n'] =~= msg.push('\n'));
    lemma_encode_utf8_concat(msg, seq!['\n']);
    lemma_newline_encoding();
    assert(fb =~= encode_utf8(msg.push('\n')));
    encode_utf8_valid_utf8(msg.push('\n'));
    encode_utf8_decode_utf8(msg.push('\n'));
}

/// Law: sends that run one after the other — as the shared sender's lock
/// serializes them — put whole frames on the wire in order: all of the first
/// message's bytes and its terminator, then all of the second's, never
/// interleaved, and each frame decodes back to its own message.
pub proof fn lemma_frames_decode_in_order(a: Seq<char>, b: Seq<char>)
    requires
        !encode_utf8(a).contains(LF),
        !encode_utf8(b).contains(LF),
    ensures
        find_newline(frame_bytes(a) + frame_bytes(b)) == Some(encode_utf8(a).len() as int),
        (frame_bytes(a) + frame_bytes(b)).subrange(0, frame_bytes(a).len() as int) == frame_bytes(
            a,
        ),
        (frame_bytes(a) + frame_bytes(b)).subrange(
            frame_bytes(a).len() as int,
            (frame_bytes(a) + frame_bytes(b)).len() as int,
        ) == frame_bytes(b),
        decode_utf8(frame_bytes(a)) == a.push('\n'),
        decode_utf8(frame_bytes(b)) == b.push('\n'),
{
    lemma_encode_decode_round_trip(a, frame_bytes(b));
    lemma_encode_decode_round_trip(b, Seq::<u8>::empty());
}

/// Law: every opcode is plain ASCII and holds no line feed byte, so an opcode
/// always travels as one whole frame.
pub proof fn lemma_opcode_frame_safe(c: Command)
    ensures
        is_ascii_chars(opcode_of(c)),
        !encode_utf8(opcode_of(c)).contains(LF),
{
    reveal_strlit("ss119010000");
    reveal_strlit("ss119020000");
    reveal_strlit("ss119000000");
    reveal_strlit("init");
    let oc = opcode_of(c);
    assert(is_ascii_chars(oc));
    is_ascii_chars_encode_utf8(oc);
    assert forall|i: int| 0 <= i < encode_utf8(oc).len() implies encode_utf8(oc)[i] != LF by {
        assert(encode_utf8(oc)[i] == oc[i] as u8);
    }
}

/// Law: the wire round trip of every command. Its opcode goes out as the one
/// whole frame `opcode + line feed`, and decoding that frame yields exactly
/// the opcode line back.
pub proof fn lemma_command_wire_round_trip(c: Command)
    ensures
        !encode_utf8(opcode_of(c)).contains(LF),
        find_newline(frame_bytes(opcode_of(c))) == Some(encode_utf8(opcode_of(c)).len() as int),
        valid_utf8(frame_bytes(opcode_of(c))),
        decode_utf8(frame_bytes(opcode_of(c))) == opcode_of(c).push('\n'),
{
    lemma_opcode_frame_safe(c);
    lemma_encode_decode_round_trip(opcode_of(c), Seq::<u8>::empty());
    assert(frame_bytes(opcode_of(c)) + Seq::<u8>::empty() =~= frame_bytes(opcode_of(c)));
}

/// Relies on `String::from_utf8`: `Ok` exactly when the bytes are valid
/// UTF-8, and then the returned string's UTF-8 encoding is those bytes.
#[verifier::external_body]
fn string_from_bytes(v: Vec<u8>) -> (r: Option<String>)
    ensures
        r is Some <==> valid_utf8(v@),
        r matches Some(s) ==> encode_utf8(s@) == v@,
{
    match String::from_utf8(v) {
        Ok(s) => Some(s),
        Err(_) => None,
    }
}

/// The line codec, stateless: all its state sits in the buffers it is handed.
pub struct LineCodec;

impl LineCodec {
    /// Scans the buffer for the first line feed. With none there, leaves the
    /// buffer untouched and reports that no frame is complete yet. Otherwise
    /// removes the frame — everything up to and including the terminator —
    /// from the buffer, and returns it as text, or `InvalidEncoding` when the
    /// removed bytes are not valid text.
    pub fn decode(&mut self, src: &mut bytes::BytesMut) -> (r: Result<
        Option<String>,
        BridgeError,
    >)
        ensures
            (match find_newline(buf_bytes(*old(src))) {
                None => r == Ok::<Option<String>, BridgeError>(None) && buf_bytes(*final(src))
                    == buf_bytes(*old(src)),
                Some(n) => {
                    &&& buf_bytes(*final(src)) == buf_bytes(*old(src)).subrange(
                        n + 1,
                        buf_bytes(*old(src)).len() as int,
                    )
                    &&& valid_utf8(buf_bytes(*old(src)).subrange(0, n + 1)) ==> (r matches Ok(line)
                        && line matches Some(l) && l@ == decode_utf8(
                        buf_bytes(*old(src)).subrange(0, n + 1),
                    ) && encode_utf8(l@) == buf_bytes(*old(src)).subrange(0, n + 1))
                    &&& !valid_utf8(buf_bytes(*old(src)).subrange(0, n + 1)) ==> (r matches Err(e)
                        && e == BridgeError::InvalidEncoding)
                },
            }),
    {
        let ghost s0 = buf_bytes(*old(src));
        let len = buf_len(src);
        let mut i: usize = 0;
        while i < len
            invariant
                s0 == buf_bytes(*old(src)),
                len == s0.len(),
                buf_bytes(*src) == s0,
                i <= len,
                forall|k: int| 0 <= k < i ==> s0[k] != LF,
            decreases len - i,
        {
            if buf_get(src, i) == LF {
                proof {
                    lemma_find_newline_at(s0, i as int);
                }
                let line_buf = buf_split_to(src, i + 1);
                let frame = buf_to_vec(&line_buf);
                return match string_from_bytes(frame) {
                    Some(line) => {
                        proof {
                            encode_utf8_decode_utf8(line@);
                        }
                        Ok(Some(line))
                    },
                    None => Err(BridgeError::InvalidEncoding),
                };
            }
            i += 1;
        }
        proof {
            lemma_find_newline_none(s0);
        }
        Ok(None)
    }

    /// Appends the message's bytes and exactly one line feed to the buffer,
    /// reserving room for them first. Nothing else changes: the bytes already
    /// in the buffer stay in place, ahead of the new frame.
    pub fn encode(&mut self, item: &str, dst: &mut bytes::BytesMut)
        requires
            encode_utf8(item@).len() < usize::MAX,
        ensures
            buf_bytes(*final(dst)) == buf_bytes(*old(dst)) + frame_bytes(item@),
    {
        let ghost pre = buf_bytes(*dst);
        buf_reserve(dst, item.len() + 1);
        buf_put_slice(dst, item.as_bytes());
        buf_put_u8(dst, LF);
        proof {
            assert(buf_bytes(*dst) =~= pre + frame_bytes(item@));
        }
    }
}

} // verus!
