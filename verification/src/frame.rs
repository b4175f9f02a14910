//! Framing of packets on a byte stream.
//!
//! A frame is the length of its body as an unsigned varint, followed by the
//! body. The varint is written and read by `rkyv_codec`, so frames are those of
//! its stream reader and writer with the `VarintLength` codec.

use rkyv_codec::LengthCodec;
use rkyv_codec::VarintLength;
use vstd::prelude::*;

verus! {

type LengthError = <VarintLength as LengthCodec>::Error;

/// The unsigned varint of `n`: seven bits per byte, lowest first, the high
/// bit set on every byte but the last.
pub open spec fn varint_encoding(n: nat) -> Seq<u8>
    decreases n,
{
    if n < 128 {
        seq![n as u8]
    } else {
        seq![(n % 128 + 128) as u8] + varint_encoding(n / 128)
    }
}

/// The number whose base-128 digits, lowest first, are the low seven bits
/// of each byte.
pub open spec fn base128_value(bytes: Seq<u8>) -> nat
    decreases bytes.len(),
{
    if bytes.len() == 0 {
        0
    } else {
        (bytes[0] % 128) as nat + 128 * base128_value(bytes.drop_first())
    }
}

/// The most bytes that the varint of a `usize` takes.
pub open spec fn varint_max_len() -> nat {
    if usize::MAX > 0xffff_ffff {
        10
    } else {
        5
    }
}

/// The first position at or after `from`, and before `limit`, whose byte has
/// the high bit clear.
pub open spec fn first_terminator(bytes: Seq<u8>, from: nat, limit: nat) -> Option<nat>
    decreases limit - from,
{
    if from >= limit || from >= bytes.len() {
        None
    } else if bytes[from as int] < 128 {
        Some(from)
    } else {
        first_terminator(bytes, from + 1, limit)
    }
}

/// Outcome of reading a varint from the front of a buffer.
pub enum VarintParse {
    /// A varint of `len` bytes that stands for `value`.
    Value { value: nat, len: nat },
    /// The buffer ends inside the varint.
    Insufficient,
    /// The varint runs on past the longest one of a `usize`.
    Overflow,
    /// The varint ends in a zero byte that a shorter one would not have.
    NotMinimal,
}

/// What reading a varint from the front of `bytes` gives.
pub open spec fn varint_parse(bytes: Seq<u8>) -> VarintParse {
    match first_terminator(bytes, 0, varint_max_len()) {
        Some(last) => if last > 0 && bytes[last as int] == 0 {
            VarintParse::NotMinimal
        } else {
            VarintParse::Value {
                value: (base128_value(bytes.subrange(0, last + 1 as int)) % (usize::MAX as nat
                    + 1)) as nat,
                len: last + 1,
            }
        },
        None => if bytes.len() >= varint_max_len() {
            VarintParse::Overflow
        } else {
            VarintParse::Insufficient
        },
    }
}

/// Why a frame's length could not be read.
#[derive(Clone, Copy, Debug, PartialEq, Eq, Structural)]
pub enum VarintError {
    Insufficient,
    Overflow,
    NotMinimal,
}

/// Why a byte stream is not a sequence of frames.
#[derive(Clone, Copy, Debug, PartialEq, Eq, Structural)]
pub enum FrameError {
    /// The length prefix is longer than any length can be.
    LengthOverflow,
    /// The length prefix is padded with a zero byte.
    LengthNotMinimal,
}

/// What the front of a receive buffer holds.
#[derive(Clone, Copy, Debug, PartialEq, Eq, Structural)]
pub enum Frame {
    /// Not yet a whole frame: more bytes are needed.
    Incomplete,
    /// A whole frame; its body is the bytes from `start` up to `end`.
    Complete { start: usize, end: usize },
    /// No frame starts here.
    Malformed(FrameError),
}

/// What the front of `buffer` holds.
pub open spec fn frame_parse(buffer: Seq<u8>) -> Frame {
    match varint_parse(buffer) {
        VarintParse::Value { value, len } => if buffer.len() - len >= value {
            Frame::Complete { start: len as usize, end: (len + value) as usize }
        } else {
            Frame::Incomplete
        },
        VarintParse::Insufficient => Frame::Incomplete,
        VarintParse::Overflow => Frame::Malformed(FrameError::LengthOverflow),
        VarintParse::NotMinimal => Frame::Malformed(FrameError::LengthNotMinimal),
    }
}

/// The frame that carries `body`.
pub open spec fn frame_encoding(body: Seq<u8>) -> Seq<u8> {
    varint_encoding(body.len()) + body
}

/// Calls `VarintLength::encode` of `rkyv_codec`, which writes `length` as an
/// unsigned varint into a ten-byte buffer and returns the bytes written.
#[verifier::external_body]
fn varint_encode(length: usize) -> (bytes: Vec<u8>)
    ensures
        bytes@ == varint_encoding(length as nat),
{
    let mut buffer = [0u8; 10];
    VarintLength::encode(length, &mut buffer).to_vec()
}

/// Calls `VarintLength::decode` of `rkyv_codec`, which reads an unsigned
/// varint from the front of `buffer`. On success the result holds the value
/// and the number of bytes that follow the varint. The value is taken modulo
/// the range of `usize`: the last byte of a varint of full length may carry
/// bits that are dropped.
#[verifier::external_body]
fn varint_decode(buffer: &[u8]) -> (parsed: Result<(usize, usize), VarintError>)
    ensures
        match varint_parse(buffer@) {
            VarintParse::Value { value, len } => parsed == Ok::<(usize, usize), VarintError>(
                (value as usize, (buffer@.len() - len) as usize),
            ),
            VarintParse::Insufficient => parsed == Err::<(usize, usize), VarintError>(
                VarintError::Insufficient,
            ),
            VarintParse::Overflow => parsed == Err::<(usize, usize), VarintError>(
                VarintError::Overflow,
            ),
            VarintParse::NotMinimal => parsed == Err::<(usize, usize), VarintError>(
                VarintError::NotMinimal,
            ),
        },
{
    match VarintLength::decode(buffer) {
        Ok((length, rest)) => Ok((length, rest.len())),
        Err(LengthError::Insufficient) => Err(VarintError::Insufficient),
        Err(LengthError::Overflow) => Err(VarintError::Overflow),
        Err(LengthError::NotMinimal) => Err(VarintError::NotMinimal),
    }
}

/// Where the search for the end of a varint stops: at the first byte below
/// 128, and only there.
pub proof fn lemma_first_terminator(bytes: Seq<u8>, from: nat, limit: nat)
    ensures
        match first_terminator(bytes, from, limit) {
            Some(last) => {
                &&& from <= last < limit
                &&& last < bytes.len()
                &&& bytes[last as int] < 128
                &&& forall|i: int| from <= i < last ==> #[trigger] bytes[i] >= 128
            },
            None => forall|i: int|
                from <= i < limit && i < bytes.len() ==> #[trigger] bytes[i] >= 128,
        },
    decreases limit - from,
{
    if from >= limit || from >= bytes.len() {
    } else if bytes[from as int] < 128 {
    } else {
        lemma_first_terminator(bytes, from + 1, limit);
    }
}

/// A varint that was read stands for a value in the range of `usize` and
/// lies within the buffer.
pub proof fn lemma_parsed_value_fits(bytes: Seq<u8>)
    ensures
        varint_parse(bytes) matches VarintParse::Value { value, len } ==> value <= usize::MAX
            && 1 <= len <= bytes.len() && len <= varint_max_len(),
{
    lemma_first_terminator(bytes, 0, varint_max_len());
    if let Some(last) = first_terminator(bytes, 0, varint_max_len()) {
        let total = base128_value(bytes.subrange(0, last + 1 as int)) as int;
        let range = usize::MAX as int + 1;
        assert(0 <= total % range < range) by (nonlinear_arith)
            requires
                range > 0,
        ;
    }
}

/// 128 to the power `digits`.
pub open spec fn base128_limit(digits: nat) -> nat
    decreases digits,
{
    if digits == 0 {
        1
    } else {
        128 * base128_limit((digits - 1) as nat)
    }
}

/// The shape of a varint: every byte but the last has the high bit set, the
/// last byte has it clear and is zero only in the varint of zero, and the
/// digits spell the number.
pub proof fn lemma_varint_encoding_shape(n: nat)
    ensures
        varint_encoding(n).len() >= 1,
        varint_encoding(n).last() < 128,
        forall|i: int|
            0 <= i < varint_encoding(n).len() - 1 ==> #[trigger] varint_encoding(n)[i] >= 128,
        varint_encoding(n).len() > 1 ==> varint_encoding(n).last() != 0,
        varint_encoding(n).len() == 1 <==> n < 128,
        base128_value(varint_encoding(n)) == n,
    decreases n,
{
    let encoded = varint_encoding(n);
    if n < 128 {
        assert(encoded.drop_first() =~= Seq::<u8>::empty());
        assert(base128_value(encoded.drop_first()) == 0);
    } else {
        let rest = varint_encoding(n / 128);
        lemma_varint_encoding_shape(n / 128);
        assert(encoded.drop_first() =~= rest);
        assert(encoded.last() == rest.last());
        assert forall|i: int| 0 <= i < encoded.len() - 1 implies #[trigger] encoded[i] >= 128 by {
            if i > 0 {
                assert(encoded[i] == rest[i - 1]);
            }
        }
        assert(n == 128 * (n / 128) + n % 128);
    }
}

/// A number below 128 to the power `digits` has a varint of at most `digits`
/// bytes.
pub proof fn lemma_varint_encoding_len(n: nat, digits: nat)
    requires
        digits >= 1,
        n < base128_limit(digits),
    ensures
        varint_encoding(n).len() <= digits,
    decreases digits,
{
    if n >= 128 {
        assert(base128_limit(1) == 128) by {
            reveal_with_fuel(base128_limit, 2);
        }
        lemma_varint_encoding_len(n / 128, (digits - 1) as nat);
    }
}

/// The varint of any `usize` is short enough to be read back.
pub proof fn lemma_usize_encoding_len(n: nat)
    requires
        n <= usize::MAX,
    ensures
        varint_encoding(n).len() <= varint_max_len(),
{
    reveal_with_fuel(base128_limit, 11);
    assert(base128_limit(5) == 0x8_0000_0000);
    assert(base128_limit(10) == 0x40_0000_0000_0000_0000);
    if usize::MAX > 0xffff_ffff {
        lemma_varint_encoding_len(n, 10);
    } else {
        lemma_varint_encoding_len(n, 5);
    }
}

/// Reading what was written gives the number back, whatever follows it.
pub proof fn lemma_varint_roundtrip(n: nat, tail: Seq<u8>)
    requires
        n <= usize::MAX,
    ensures
        varint_parse(varint_encoding(n) + tail) == (VarintParse::Value {
            value: n,
            len: varint_encoding(n).len(),
        }),
{
    let encoded = varint_encoding(n);
    let bytes = encoded + tail;
    let last = (encoded.len() - 1) as nat;
    lemma_varint_encoding_shape(n);
    lemma_usize_encoding_len(n);
    lemma_first_terminator(bytes, 0, varint_max_len());
    assert(bytes[last as int] == encoded[last as int]);
    assert forall|i: int| 0 <= i < last implies #[trigger] bytes[i] >= 128 by {
        assert(bytes[i] == encoded[i]);
    }
    assert(first_terminator(bytes, 0, varint_max_len()) == Some(last));
    assert(bytes.subrange(0, last + 1 as int) =~= encoded);
    let range = usize::MAX as int + 1;
    assert((n as int) % range == n) by (nonlinear_arith)
        requires
            0 <= n < range,
    ;
}

/// A frame is read back as written: the body lies right behind the length,
/// and bytes of later frames do not disturb it.
pub proof fn lemma_frame_roundtrip(body: Seq<u8>, rest: Seq<u8>)
    requires
        varint_encoding(body.len()).len() + body.len() <= usize::MAX,
    ensures
        frame_parse(frame_encoding(body) + rest) == (Frame::Complete {
            start: varint_encoding(body.len()).len() as usize,
            end: (varint_encoding(body.len()).len() + body.len()) as usize,
        }),
        (frame_encoding(body) + rest).subrange(
            varint_encoding(body.len()).len() as int,
            (varint_encoding(body.len()).len() + body.len()) as int,
        ) == body,
{
    let prefix = varint_encoding(body.len());
    lemma_varint_roundtrip(body.len(), body + rest);
    assert(frame_encoding(body) + rest =~= prefix + (body + rest));
    assert((frame_encoding(body) + rest).subrange(
        prefix.len() as int,
        (prefix.len() + body.len()) as int,
    ) =~= body);
}

/// While only part of a frame has arrived the reader asks for more: it
/// neither fails nor reports a frame.
pub proof fn lemma_partial_frame_is_incomplete(body: Seq<u8>, received: int)
    requires
        varint_encoding(body.len()).len() + body.len() <= usize::MAX,
        0 <= received < frame_encoding(body).len(),
    ensures
        frame_parse(frame_encoding(body).subrange(0, received)) == Frame::Incomplete,
{
    let prefix = varint_encoding(body.len());
    let part = frame_encoding(body).subrange(0, received);
    lemma_varint_encoding_shape(body.len());
    lemma_usize_encoding_len(body.len());
    lemma_first_terminator(part, 0, varint_max_len());
    if received < prefix.len() {
        assert forall|i: int| 0 <= i < part.len() implies #[trigger] part[i] >= 128 by {
            assert(part[i] == prefix[i]);
        }
        assert(first_terminator(part, 0, varint_max_len()) is None);
    } else {
        let tail = body.subrange(0, received - prefix.len());
        assert(part =~= prefix + tail);
        lemma_varint_roundtrip(body.len(), tail);
    }
}

/// Wraps `body` in a frame.
pub fn encode_frame(body: &[u8]) -> (frame: Vec<u8>)
    ensures
        frame@ == frame_encoding(body@),
{
    let mut frame: Vec<u8> = varint_encode(body.len());
    let ghost prefix = frame@;
    let mut i: usize = 0;
    while i < body.len()
        invariant
            i <= body@.len(),
            frame@ == prefix + body@.subrange(0, i as int),
        decreases body@.len() - i,
    {
        frame.push(body[i]);
        i += 1;
        assert(frame@ =~= prefix + body@.subrange(0, i as int));
    }
    assert(body@.subrange(0, i as int) =~= body@);
    frame
}

/// Looks for a frame at the front of a receive buffer.
pub fn decode_frame(buffer: &[u8]) -> (frame: Frame)
    ensures
        frame == frame_parse(buffer@),
        frame matches Frame::Complete { start, end } ==> start <= end <= buffer@.len(),
{
    proof {
        lemma_first_terminator(buffer@, 0, varint_max_len());
        lemma_parsed_value_fits(buffer@);
    }
    let total: usize = buffer.len();
    match varint_decode(buffer) {
        Ok((length, remaining)) => {
            if remaining >= length {
                let start: usize = total - remaining;
                Frame::Complete { start, end: start + length }
            } else {
                Frame::Incomplete
            }
        },
        Err(VarintError::Insufficient) => Frame::Incomplete,
        Err(VarintError::Overflow) => Frame::Malformed(FrameError::LengthOverflow),
        Err(VarintError::NotMinimal) => Frame::Malformed(FrameError::LengthNotMinimal),
    }
}

} // verus!
