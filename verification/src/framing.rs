//! Length-prefixed frames on a byte stream.
//!
//! A frame is its length as a big-endian `u32`, followed by that many bytes.

use vstd::prelude::*;

use crate::bytes::{append, be_four, be_u32, be_value, u32_be_bytes};
use crate::bytes::{lemma_be_four_value, lemma_be_value_be_four, lemma_be_value_four};
use crate::text::{decimal, decimal_text, own};

verus! {

/// Maximum allowed frame size for TCP transport.
///
/// This protects against memory DoS if a peer sends a bogus length prefix.
pub const DEFAULT_MAX_FRAME_LEN: usize = 65536;

/// Why a frame could not be read or written.
#[derive(Clone, Copy, Debug, PartialEq, Eq, Structural)]
pub enum FrameError {
    /// The stream ended inside a frame.
    UnexpectedEof,
    /// The prefix announces a frame of no bytes.
    ZeroLength,
    /// The prefix announces more bytes than the reader allows.
    TooLarge { len: usize, max_len: usize },
    /// A frame of no bytes was to be written.
    WriteEmpty,
    /// A batch with a frame of no bytes was to be encoded.
    EncodeEmpty,
    /// The frame is too long for its prefix.
    FrameTooLarge,
    /// The batch is too long for memory.
    BatchTooLarge,
}

/// The class that a frame error belongs to.
#[derive(Clone, Copy, Debug, PartialEq, Eq, Structural)]
pub enum FrameErrorKind {
    UnexpectedEof,
    InvalidData,
    InvalidInput,
}

impl FrameError {
    /// The class of the error.
    pub open spec fn spec_kind(self) -> FrameErrorKind {
        match self {
            FrameError::UnexpectedEof => FrameErrorKind::UnexpectedEof,
            FrameError::ZeroLength | FrameError::TooLarge { .. } => FrameErrorKind::InvalidData,
            _ => FrameErrorKind::InvalidInput,
        }
    }

    /// The class of the error: a stream that ended, a prefix that is not
    /// acceptable, or a frame that cannot be written.
    pub fn kind(&self) -> (r: FrameErrorKind)
        ensures
            r == self.spec_kind(),
    {
        match self {
            FrameError::UnexpectedEof => FrameErrorKind::UnexpectedEof,
            FrameError::ZeroLength => FrameErrorKind::InvalidData,
            FrameError::TooLarge { .. } => FrameErrorKind::InvalidData,
            FrameError::WriteEmpty => FrameErrorKind::InvalidInput,
            FrameError::EncodeEmpty => FrameErrorKind::InvalidInput,
            FrameError::FrameTooLarge => FrameErrorKind::InvalidInput,
            FrameError::BatchTooLarge => FrameErrorKind::InvalidInput,
        }
    }

    /// The error in words.
    pub open spec fn spec_message(self) -> Seq<char> {
        match self {
            FrameError::UnexpectedEof => "failed to fill whole buffer"@,
            FrameError::ZeroLength => "zero-length frame"@,
            FrameError::TooLarge { len, max_len } => "frame too large: "@ + decimal(len as nat)
                + " > "@ + decimal(max_len as nat),
            FrameError::WriteEmpty => "cannot write empty frame"@,
            FrameError::EncodeEmpty => "cannot encode empty frame"@,
            FrameError::FrameTooLarge => "frame too large"@,
            FrameError::BatchTooLarge => "batch too large"@,
        }
    }

    /// The error in words.
    pub fn message(&self) -> (r: String)
        ensures
            r@ == self.spec_message(),
    {
        match self {
            FrameError::UnexpectedEof => own("failed to fill whole buffer"),
            FrameError::ZeroLength => own("zero-length frame"),
            FrameError::TooLarge { len, max_len } => own("frame too large: ").concat(
                decimal_text(*len).as_str(),
            ).concat(" > ").concat(decimal_text(*max_len).as_str()),
            FrameError::WriteEmpty => own("cannot write empty frame"),
            FrameError::EncodeEmpty => own("cannot encode empty frame"),
            FrameError::FrameTooLarge => own("frame too large"),
            FrameError::BatchTooLarge => own("batch too large"),
        }
    }
}

/// The frame that carries `bytes`.
pub open spec fn frame(bytes: Seq<u8>) -> Seq<u8> {
    be_four(bytes.len()) + bytes
}

/// The frames of a batch, one after the other.
pub open spec fn batch(frames: Seq<Seq<u8>>) -> Seq<u8>
    decreases frames.len(),
{
    if frames.len() == 0 {
        Seq::empty()
    } else {
        batch(frames.drop_last()) + frame(frames.last())
    }
}

/// The bytes of each frame of a list of vectors.
pub open spec fn contents(frames: Seq<Vec<u8>>) -> Seq<Seq<u8>> {
    frames.map_values(|f: Vec<u8>| f@)
}

/// The length that a prefix announces, if a reader that allows `max_len`
/// bytes accepts it.
pub open spec fn announced_len(header: Seq<u8>, max_len: usize) -> Result<usize, FrameError> {
    let len = be_value(header);
    if len == 0 {
        Err(FrameError::ZeroLength)
    } else if len > max_len {
        Err(FrameError::TooLarge { len: len as usize, max_len })
    } else {
        Ok(len as usize)
    }
}

/// The frame at the front of a stream and the stream after it.
pub open spec fn first_frame(stream: Seq<u8>, max_len: usize) -> Result<
    (Seq<u8>, Seq<u8>),
    FrameError,
> {
    if stream.len() < 4 {
        Err(FrameError::UnexpectedEof)
    } else {
        match announced_len(stream.take(4), max_len) {
            Ok(len) => if stream.len() < 4 + len {
                Err(FrameError::UnexpectedEof)
            } else {
                Ok((stream.subrange(4, 4 + len), stream.skip(4 + len)))
            },
            Err(e) => Err(e),
        }
    }
}

/// The first `n` frames of a stream and the stream after them.
pub open spec fn first_frames(stream: Seq<u8>, n: nat, max_len: usize) -> Result<
    (Seq<Seq<u8>>, Seq<u8>),
    FrameError,
>
    decreases n,
{
    if n == 0 {
        Ok((Seq::empty(), stream))
    } else {
        match first_frames(stream, (n - 1) as nat, max_len) {
            Ok((head, rest)) => match first_frame(rest, max_len) {
                Ok((f, rest)) => Ok((head.push(f), rest)),
                Err(e) => Err(e),
            },
            Err(e) => Err(e),
        }
    }
}

/// How the lengths of a batch add up, prefixes included: the total, or the
/// first trouble on the way.
pub open spec fn batch_len(frames: Seq<Seq<u8>>) -> Result<nat, FrameError>
    decreases frames.len(),
{
    if frames.len() == 0 {
        Ok(0)
    } else {
        match batch_len(frames.drop_last()) {
            Ok(total) => if frames.last().len() == 0 {
                Err(FrameError::EncodeEmpty)
            } else if total + 4 + frames.last().len() > usize::MAX {
                Err(FrameError::BatchTooLarge)
            } else {
                Ok((total + 4 + frames.last().len()) as nat)
            },
            Err(e) => Err(e),
        }
    }
}

/// The buffer that carries a batch, or why there is none.
pub open spec fn encoded_batch(frames: Seq<Seq<u8>>) -> Result<Seq<u8>, FrameError> {
    match batch_len(frames) {
        Err(e) => Err(e),
        Ok(_) => if exists|i: int| 0 <= i < frames.len() && (#[trigger] frames[i]).len() > u32::MAX {
            Err(FrameError::FrameTooLarge)
        } else {
            Ok(batch(frames))
        },
    }
}

/// What was written as one frame is read as that frame, whatever follows it.
pub proof fn law_frame_read_back(bytes: Seq<u8>, rest: Seq<u8>, max_len: usize)
    requires
        0 < bytes.len() <= max_len,
        bytes.len() <= u32::MAX,
    ensures
        first_frame(frame(bytes) + rest, max_len) == Ok::<_, FrameError>((bytes, rest)),
{
    let stream = frame(bytes) + rest;
    lemma_be_four_value(bytes.len());
    assert(stream.take(4) =~= be_four(bytes.len()));
    assert(stream.subrange(4, 4 + bytes.len() as int) =~= bytes);
    assert(stream.skip(4 + bytes.len() as int) =~= rest);
}

/// What was encoded as a batch is read as its frames, in order, whatever
/// follows them.
pub proof fn law_batch_read_back(frames: Seq<Seq<u8>>, rest: Seq<u8>, max_len: usize)
    requires
        forall|i: int|
            0 <= i < frames.len() ==> 0 < (#[trigger] frames[i]).len() <= max_len
                && frames[i].len() <= u32::MAX,
    ensures
        first_frames(batch(frames) + rest, frames.len(), max_len) == Ok::<_, FrameError>(
            (frames, rest),
        ),
    decreases frames.len(),
{
    if frames.len() == 0 {
        assert(batch(frames) + rest =~= rest);
        assert(frames =~= Seq::empty());
    } else {
        let last = frame(frames.last()) + rest;
        law_batch_read_back(frames.drop_last(), last, max_len);
        assert(batch(frames) + rest =~= batch(frames.drop_last()) + last);
        assert(frames.last() == frames[frames.len() - 1]);
        law_frame_read_back(frames.last(), rest, max_len);
        assert(frames.drop_last().push(frames.last()) =~= frames);
    }
}

/// A batch of two lists is the batch of the first followed by that of the second.
pub proof fn law_batch_concat(a: Seq<Seq<u8>>, b: Seq<Seq<u8>>)
    ensures
        batch(a + b) == batch(a) + batch(b),
    decreases b.len(),
{
    if b.len() == 0 {
        assert(a + b =~= a);
        assert(batch(a) + batch(b) =~= batch(a));
    } else {
        law_batch_concat(a, b.drop_last());
        assert((a + b).drop_last() =~= a + b.drop_last());
        assert(batch(a + b) =~= batch(a) + batch(b));
    }
}

/// What is written for some bytes: their frame, or why there is none.
pub open spec fn written_frame(bytes: Seq<u8>) -> Result<Seq<u8>, FrameError> {
    if bytes.len() == 0 {
        Err(FrameError::WriteEmpty)
    } else if bytes.len() > u32::MAX {
        Err(FrameError::FrameTooLarge)
    } else {
        Ok(frame(bytes))
    }
}

/// Whatever has at least one byte and a length that four bytes can spell is
/// written, and a reader that allows its length reads it back and stands behind
/// it. Nothing else is written.
pub proof fn law_what_is_written_is_read(bytes: Seq<u8>, rest: Seq<u8>, max_len: usize)
    ensures
        written_frame(bytes) is Ok <==> 0 < bytes.len() < 0x1_0000_0000,
        written_frame(bytes) is Ok && bytes.len() <= max_len ==> first_frame(
            written_frame(bytes)->Ok_0 + rest,
            max_len,
        ) == Ok::<_, FrameError>((bytes, rest)),
        bytes.len() == 0 ==> written_frame(bytes) == Err::<Seq<u8>, _>(FrameError::WriteEmpty),
        bytes.len() >= 0x1_0000_0000 ==> written_frame(bytes) == Err::<Seq<u8>, _>(
            FrameError::FrameTooLarge,
        ),
{
    if 0 < bytes.len() <= max_len && bytes.len() <= u32::MAX {
        law_frame_read_back(bytes, rest, max_len);
    }
}

/// A frame is four bytes that spell the length, most significant first, and then
/// the bytes that it carries, whatever their number.
pub proof fn law_frame_layout(bytes: Seq<u8>)
    requires
        bytes.len() <= u32::MAX,
    ensures
        frame(bytes).len() == bytes.len() + 4,
        frame(bytes)[0] * 0x100_0000 + frame(bytes)[1] * 0x1_0000 + frame(bytes)[2] * 0x100
            + frame(bytes)[3] == bytes.len(),
        frame(bytes).skip(4) == bytes,
{
    lemma_be_four_value(bytes.len());
    lemma_be_value_four(be_four(bytes.len()));
    assert(frame(bytes).skip(4) =~= bytes);
}

/// What a reader makes of a stream goes by the number that its first four bytes
/// spell: zero is refused, more than the reader allows is refused with both
/// numbers, more than there is cannot be read yet, and anything else is as many
/// bytes as the number says.
pub proof fn law_first_frame_goes_by_its_number(stream: Seq<u8>, max_len: usize)
    requires
        stream.len() >= 4,
    ensures
        ({
            let n = stream[0] * 0x100_0000 + stream[1] * 0x1_0000 + stream[2] * 0x100 + stream[3];
            let r = first_frame(stream, max_len);
            &&& n == 0 ==> r == Err::<(Seq<u8>, Seq<u8>), _>(FrameError::ZeroLength)
            &&& n > max_len ==> r == Err::<(Seq<u8>, Seq<u8>), _>(
                FrameError::TooLarge { len: n as usize, max_len },
            )
            &&& 0 < n <= max_len && stream.len() < 4 + n ==> r == Err::<(Seq<u8>, Seq<u8>), _>(
                FrameError::UnexpectedEof,
            )
            &&& 0 < n <= max_len && stream.len() >= 4 + n ==> r == Ok::<_, FrameError>(
                (stream.subrange(4, 4 + n), stream.skip(4 + n)),
            )
        }),
{
    lemma_be_value_four(stream.take(4));
}

/// A prefix of four bytes goes by the number that they spell: zero is refused,
/// more than allowed is refused with both numbers, and anything else is the length.
pub proof fn law_prefix_goes_by_its_number(header: Seq<u8>, max_len: usize)
    requires
        header.len() == 4,
    ensures
        ({
            let n = header[0] * 0x100_0000 + header[1] * 0x1_0000 + header[2] * 0x100 + header[3];
            announced_len(header, max_len) == if n == 0 {
                Err(FrameError::ZeroLength)
            } else if n > max_len {
                Err(FrameError::TooLarge { len: n as usize, max_len })
            } else {
                Ok::<usize, FrameError>(n as usize)
            }
        }),
{
    lemma_be_value_four(header);
}

/// A stream that ends within the four bytes of a length has no frame yet.
pub proof fn law_short_stream_has_no_frame(stream: Seq<u8>, max_len: usize)
    requires
        stream.len() < 4,
    ensures
        first_frame(stream, max_len) == Err::<(Seq<u8>, Seq<u8>), _>(FrameError::UnexpectedEof),
{
}

/// What is read is what a frame of the stream carries: it is not empty, not
/// longer than allowed, and written again it gives the stream back.
pub proof fn law_read_frame_was_written(stream: Seq<u8>, max_len: usize)
    requires
        first_frame(stream, max_len) is Ok,
    ensures
        ({
            let (f, rest) = first_frame(stream, max_len)->Ok_0;
            &&& 0 < f.len() <= max_len
            &&& stream == frame(f) + rest
        }),
{
    let (f, rest) = first_frame(stream, max_len)->Ok_0;
    lemma_be_value_be_four(stream.take(4));
    assert(stream =~= stream.take(4) + f + rest);
    assert(stream =~= frame(f) + rest);
}

/// How long a batch is: its frames' lengths added up, and four bytes for each.
pub proof fn law_batch_length(frames: Seq<Seq<u8>>)
    ensures
        batch(frames).len() == frames.fold_left(
            0int,
            |total: int, f: Seq<u8>| total + 4 + f.len(),
        ),
    decreases frames.len(),
{
    if frames.len() > 0 {
        law_batch_length(frames.drop_last());
    }
}

/// The total that is added up while a batch is looked over is the batch's length.
proof fn lemma_batch_len(frames: Seq<Seq<u8>>)
    ensures
        batch_len(frames) matches Ok(total) ==> total == batch(frames).len(),
        (forall|i: int| 0 <= i < frames.len() ==> (#[trigger] frames[i]).len() > 0) && batch(
            frames,
        ).len() <= usize::MAX ==> batch_len(frames) is Ok,
        (exists|i: int| 0 <= i < frames.len() && (#[trigger] frames[i]).len() == 0) && batch(
            frames,
        ).len() <= usize::MAX ==> batch_len(frames) == Err::<nat, _>(FrameError::EncodeEmpty),
        (forall|i: int| 0 <= i < frames.len() ==> (#[trigger] frames[i]).len() > 0) && batch(
            frames,
        ).len() > usize::MAX ==> batch_len(frames) == Err::<nat, _>(FrameError::BatchTooLarge),
    decreases frames.len(),
{
    if frames.len() > 0 {
        let before = frames.drop_last();
        let last = frames.len() - 1;
        lemma_batch_len(before);
        assert(batch(frames).len() == batch(before).len() + 4 + frames.last().len());
        assert(frames.last() == frames[last]);
        assert forall|i: int| 0 <= i < before.len() implies before[i] == frames[i] by {}
        if exists|i: int| 0 <= i < frames.len() && (#[trigger] frames[i]).len() == 0 {
            let i = choose|i: int| 0 <= i < frames.len() && (#[trigger] frames[i]).len() == 0;
            if i < last {
                assert(before[i].len() == 0);
            }
        }
        if exists|i: int| 0 <= i < before.len() && (#[trigger] before[i]).len() == 0 {
            let i = choose|i: int| 0 <= i < before.len() && (#[trigger] before[i]).len() == 0;
            assert(frames[i].len() == 0);
        }
    }
}

/// Frames that are not empty, that fit their prefixes and that fit in memory
/// together are always encoded, each behind its length.
pub proof fn law_batch_is_encoded(frames: Seq<Seq<u8>>)
    requires
        forall|i: int|
            0 <= i < frames.len() ==> 0 < (#[trigger] frames[i]).len() <= u32::MAX,
        frames.fold_left(0int, |total: int, f: Seq<u8>| total + 4 + f.len()) <= usize::MAX,
    ensures
        encoded_batch(frames) == Ok::<_, FrameError>(batch(frames)),
{
    law_batch_length(frames);
    lemma_batch_len(frames);
}

/// A batch is refused only for a reason, and with that reason: a frame is empty,
/// the frames do not fit in memory together, or one is too long for its prefix.
pub proof fn law_batch_is_refused_for_a_reason(frames: Seq<Seq<u8>>)
    ensures
        ({
            let total = frames.fold_left(0int, |total: int, f: Seq<u8>| total + 4 + f.len());
            let empty = exists|i: int| 0 <= i < frames.len() && (#[trigger] frames[i]).len() == 0;
            let long = exists|i: int|
                0 <= i < frames.len() && (#[trigger] frames[i]).len() > u32::MAX;
            let r = encoded_batch(frames);
            &&& empty && total <= usize::MAX ==> r == Err::<Seq<u8>, _>(FrameError::EncodeEmpty)
            &&& !empty && total > usize::MAX ==> r == Err::<Seq<u8>, _>(FrameError::BatchTooLarge)
            &&& empty && total > usize::MAX ==> r is Err
            &&& !empty && total <= usize::MAX && long ==> r == Err::<Seq<u8>, _>(
                FrameError::FrameTooLarge,
            )
            &&& !empty && total <= usize::MAX && !long ==> r == Ok::<_, FrameError>(batch(frames))
        }),
{
    law_batch_length(frames);
    lemma_batch_len(frames);
}

/// The length that a four-byte prefix announces, if a reader that allows
/// `max_len` bytes accepts it.
pub fn frame_len(header: [u8; 4], max_len: usize) -> (r: Result<usize, FrameError>)
    ensures
        r == announced_len(header@, max_len),
{
    let len: usize = be_u32(&header) as usize;
    if len == 0 {
        Err(FrameError::ZeroLength)
    } else if len > max_len {
        Err(FrameError::TooLarge { len, max_len })
    } else {
        Ok(len)
    }
}

/// Read a single length-prefixed frame.
///
/// Format: u32 big-endian length followed by that many bytes. On success the
/// reader stands behind the frame. Where the prefix itself is cut short the
/// reader has not moved, and after any other error it stands behind the prefix.
pub fn read_frame(reader: &mut &[u8], max_len: usize) -> (r: Result<Vec<u8>, FrameError>)
    ensures
        match first_frame(old(reader)@, max_len) {
            Ok((f, rest)) => r is Ok && r->Ok_0@ == f && final(reader)@ == rest,
            Err(e) => {
                &&& r == Err::<Vec<u8>, FrameError>(e)
                &&& final(reader)@ == if old(reader)@.len() < 4 {
                    old(reader)@
                } else {
                    old(reader)@.skip(4)
                }
            },
        },
{
    let stream: &[u8] = *reader;
    if stream.len() < 4 {
        return Err(FrameError::UnexpectedEof);
    }
    let header = vstd::slice::slice_subrange(stream, 0, 4);
    let body = vstd::slice::slice_subrange(stream, 4, stream.len());
    assert(header@ =~= stream@.take(4));
    assert(body@ =~= stream@.skip(4));
    *reader = body;
    let len: usize = match frame_len(crate::bytes::to_array(header), max_len) {
        Ok(len) => len,
        Err(e) => return Err(e),
    };
    if body.len() < len {
        return Err(FrameError::UnexpectedEof);
    }
    *reader = vstd::slice::slice_subrange(body, len, body.len());
    let out = vstd::slice::slice_to_vec(vstd::slice::slice_subrange(body, 0, len));
    assert(out@ =~= stream@.subrange(4, 4 + len));
    assert(reader@ =~= stream@.skip(4 + len));
    Ok(out)
}

/// Write a single length-prefixed frame.
///
/// Format: u32 big-endian length followed by the bytes. Nothing is written
/// where the frame is refused.
pub fn write_frame(writer: &mut Vec<u8>, bytes: &[u8]) -> (r: Result<(), FrameError>)
    ensures
        r == if bytes@.len() == 0 {
            Err(FrameError::WriteEmpty)
        } else if bytes@.len() > u32::MAX {
            Err(FrameError::FrameTooLarge)
        } else {
            Ok::<(), FrameError>(())
        },
        final(writer)@ == if r is Ok {
            old(writer)@ + frame(bytes@)
        } else {
            old(writer)@
        },
        match written_frame(bytes@) {
            Ok(out) => r is Ok && final(writer)@ == old(writer)@ + out,
            Err(e) => r == Err::<(), _>(e) && final(writer)@ == old(writer)@,
        },
{
    if bytes.is_empty() {
        return Err(FrameError::WriteEmpty);
    }
    if bytes.len() as u64 > u32::MAX as u64 {
        return Err(FrameError::FrameTooLarge);
    }
    let len: u32 = bytes.len() as u32;
    append(writer, &u32_be_bytes(len));
    append(writer, bytes);
    assert(writer@ =~= old(writer)@ + frame(bytes@));
    Ok(())
}

/// Helper: batch multiple frames into a single contiguous buffer suitable for a single write.
///
/// This can improve throughput by reducing syscalls.
pub fn encode_frames_to_buffer(frames: &[Vec<u8>]) -> (r: Result<Vec<u8>, FrameError>)
    ensures
        match r {
            Ok(out) => encoded_batch(contents(frames@)) == Ok::<_, FrameError>(out@),
            Err(e) => encoded_batch(contents(frames@)) == Err::<Seq<u8>, _>(e),
        },
{
    let ghost all = contents(frames@);
    let mut total: usize = 0;
    let mut i: usize = 0;
    assert(all.take(0) =~= Seq::empty());
    while i < frames.len()
        invariant
            i <= frames.len(),
            all == contents(frames@),
            batch_len(all.take(i as int)) == Ok::<_, FrameError>(total as nat),
        decreases frames.len() - i,
    {
        proof {
            lemma_batch_len_step(all, i as int);
        }
        if frames[i].is_empty() {
            proof {
                lemma_batch_len_error(all, i + 1, FrameError::EncodeEmpty);
            }
            return Err(FrameError::EncodeEmpty);
        }
        let with_prefix: Option<usize> = total.checked_add(4);
        let with_frame: Option<usize> = match with_prefix {
            Some(v) => v.checked_add(frames[i].len()),
            None => None,
        };
        match with_frame {
            Some(v) => {
                total = v;
            },
            None => {
                proof {
                    lemma_batch_len_error(all, i + 1, FrameError::BatchTooLarge);
                }
                return Err(FrameError::BatchTooLarge);
            },
        }
        i += 1;
    }
    assert(all.take(frames@.len() as int) =~= all);
    let mut out: Vec<u8> = Vec::with_capacity(total);
    let mut k: usize = 0;
    while k < frames.len()
        invariant
            k <= frames.len(),
            all == contents(frames@),
            out@ == batch(all.take(k as int)),
            forall|j: int| 0 <= j < k ==> (#[trigger] all[j]).len() <= u32::MAX,
            batch_len(all) is Ok,
        decreases frames.len() - k,
    {
        assert(all[k as int] == frames[k as int]@);
        if frames[k].len() as u64 > u32::MAX as u64 {
            assert(all[k as int].len() > u32::MAX);
            return Err(FrameError::FrameTooLarge);
        }
        let len: u32 = frames[k].len() as u32;
        append(&mut out, &u32_be_bytes(len));
        append(&mut out, &frames[k]);
        proof {
            let next = all.take(k + 1);
            assert(next.drop_last() =~= all.take(k as int));
            assert(next.last() == all[k as int]);
            assert(out@ =~= batch(next));
        }
        k += 1;
    }
    assert(all.take(frames@.len() as int) =~= all);
    Ok(out)
}

proof fn lemma_batch_len_step(all: Seq<Seq<u8>>, i: int)
    requires
        0 <= i < all.len(),
    ensures
        all.take(i + 1).drop_last() == all.take(i),
        all.take(i + 1).last() == all[i],
{
    assert(all.take(i + 1).drop_last() =~= all.take(i));
}

/// Trouble in the first frames is trouble of the whole batch.
proof fn lemma_batch_len_error(all: Seq<Seq<u8>>, n: int, e: FrameError)
    requires
        0 <= n <= all.len(),
        batch_len(all.take(n)) == Err::<nat, _>(e),
    ensures
        batch_len(all) == Err::<nat, _>(e),
    decreases all.len() - n,
{
    if n == all.len() {
        assert(all.take(n) =~= all);
    } else {
        assert(all.take(n + 1).drop_last() =~= all.take(n));
        lemma_batch_len_error(all, n + 1, e);
    }
}

} // verus!
