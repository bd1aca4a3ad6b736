//! Exact test codec for deterministic laboratory runs.
//!
//! This is not a production desktop codec. It exists to prove transport,
//! reconstruction, allocation limits, and telemetry before hardware video lands.

use crate::bytes::{
    append_bytes, be_digits, be_value, law_be_round_trip, lemma_bounds,
    push_u16, push_u32, push_u64, read_u16, read_u32, read_u64,
};
use vstd::prelude::*;
use vstd::slice::slice_subrange;

verus! {

/// Bytes of the encoded header.
pub const HEADER_LEN: usize = 44;

/// Largest encoded payload.
pub const MAX_ENCODED_BYTES: usize = 320 * 1024 * 1024;

const VERSION: u8 = 1;

const FLAG_PACKBITS: u16 = 1;

/// Why the frame layer refused a frame, by its own number.
#[derive(Debug, Clone, Copy, PartialEq, Eq, Structural)]
pub struct FrameError {
    pub code: u16,
}

/// Why a frame could not be encoded or decoded.
#[derive(Debug, Clone, Copy, PartialEq, Eq, Structural)]
pub enum CodecError {
    Truncated,
    Magic,
    Version(u8),
    Flags(u16),
    RawLength { declared: usize, expected: usize },
    PayloadLength,
    MalformedRun,
    MalformedLiteral,
    DecodedLength,
    Checksum { expected: u64, actual: u64 },
    AllocationLimit,
    Frame(FrameError),
}

// ---------------------------------------------------------------------------
// Runs and literals
// ---------------------------------------------------------------------------
/// How many bytes from `start` on equal the first, given that `count` do; at
/// most 130.
pub open spec fn run_from(input: Seq<u8>, start: int, count: int) -> int
    decreases 130 - count,
{
    if start + count < input.len() && input[start + count] == input[start] && count < 130 {
        run_from(input, start, count + 1)
    } else {
        count
    }
}

/// Length of the run of equal bytes at `start`, at most 130.
pub open spec fn run_at(input: Seq<u8>, start: int) -> int {
    if 0 <= start < input.len() {
        run_from(input, start, 1)
    } else {
        0
    }
}

/// End of the literal that starts at `start` and reaches `end` at least: the
/// next run of three, 128 bytes, or the end of the input.
pub open spec fn literal_end(input: Seq<u8>, start: int, end: int) -> int
    decreases input.len() - end,
{
    if end < input.len() && end - start < 128 && run_at(input, end) < 3 {
        literal_end(input, start, end + 1)
    } else {
        end
    }
}

/// The encoding of the input from `cursor` on: runs of three or more as a
/// count and a byte, everything else as counted literals.
pub open spec fn packed(input: Seq<u8>, cursor: int) -> Seq<u8>
    decreases input.len() - cursor,
    via packed_decreases
{
    if cursor < 0 || cursor >= input.len() {
        Seq::empty()
    } else {
        let run = run_at(input, cursor);
        if run >= 3 {
            seq![(125 + run) as u8, input[cursor]] + packed(input, cursor + run)
        } else {
            let end = literal_end(input, cursor, cursor + 1);
            seq![(end - cursor - 1) as u8] + input.subrange(cursor, end) + packed(input, end)
        }
    }
}

#[via_fn]
proof fn packed_decreases(input: Seq<u8>, cursor: int) {
    if 0 <= cursor < input.len() {
        lemma_run_from(input, cursor, 1);
        lemma_literal_end(input, cursor, cursor + 1);
    }
}

proof fn lemma_run_from(input: Seq<u8>, start: int, count: int)
    requires
        0 <= start,
        1 <= count <= 130,
        start + count <= input.len(),
        forall|i: int| start <= i < start + count ==> #[trigger] input[i] == input[start],
    ensures
        count <= run_from(input, start, count) <= 130,
        start + run_from(input, start, count) <= input.len(),
        forall|i: int|
            start <= i < start + run_from(input, start, count) ==> #[trigger] input[i]
                == input[start],
    decreases 130 - count,
{
    if start + count < input.len() && input[start + count] == input[start] && count < 130 {
        lemma_run_from(input, start, count + 1);
    }
}

proof fn lemma_literal_end(input: Seq<u8>, start: int, end: int)
    requires
        0 <= start < end <= input.len(),
        end - start <= 128,
    ensures
        end <= literal_end(input, start, end) <= input.len(),
        literal_end(input, start, end) - start <= 128,
        literal_end(input, start, end) < input.len() && literal_end(input, start, end) - start
            < 128 ==> run_at(input, literal_end(input, start, end)) >= 3,
    decreases input.len() - end,
{
    if end < input.len() && end - start < 128 && run_at(input, end) < 3 {
        lemma_literal_end(input, start, end + 1);
    }
}

/// `count` copies of a byte.
pub open spec fn repeated(value: u8, count: nat) -> Seq<u8> {
    Seq::new(count, |i: int| value)
}

/// Decodes the rest of a payload behind what was `produced` already.
pub open spec fn unpacked(payload: Seq<u8>, produced: Seq<u8>, expected_len: int) -> Result<
    Seq<u8>,
    CodecError,
>
    decreases payload.len(),
{
    if payload.len() == 0 {
        if produced.len() == expected_len {
            Ok(produced)
        } else {
            Err(CodecError::DecodedLength)
        }
    } else if payload[0] >= 128 {
        let count = (payload[0] - 125) as nat;
        if payload.len() < 2 {
            Err(CodecError::MalformedRun)
        } else if produced.len() + count > expected_len {
            Err(CodecError::DecodedLength)
        } else {
            unpacked(payload.skip(2), produced + repeated(payload[1], count), expected_len)
        }
    } else {
        let count = payload[0] + 1;
        if payload.len() < 1 + count {
            Err(CodecError::MalformedLiteral)
        } else if produced.len() + count > expected_len {
            Err(CodecError::DecodedLength)
        } else {
            unpacked(
                payload.skip(1 + count),
                produced + payload.subrange(1, 1 + count),
                expected_len,
            )
        }
    }
}

proof fn lemma_unpack_packed(input: Seq<u8>, cursor: int)
    requires
        0 <= cursor <= input.len(),
    ensures
        unpacked(packed(input, cursor), input.take(cursor), input.len() as int) == Ok::<
            Seq<u8>,
            CodecError,
        >(input),
    decreases input.len() - cursor,
{
    if cursor == input.len() {
        assert(input.take(cursor) =~= input);
    } else {
        lemma_run_from(input, cursor, 1);
        lemma_literal_end(input, cursor, cursor + 1);
        let payload = packed(input, cursor);
        let run = run_at(input, cursor);
        if run >= 3 {
            lemma_unpack_packed(input, cursor + run);
            assert(payload.skip(2) =~= packed(input, cursor + run));
            assert(input.take(cursor) + repeated(input[cursor], run as nat) =~= input.take(
                cursor + run,
            ));
        } else {
            let end = literal_end(input, cursor, cursor + 1);
            lemma_unpack_packed(input, end);
            let count = end - cursor;
            assert(payload[0] == count - 1);
            assert(payload.skip(1 + count) =~= packed(input, end));
            assert(payload.subrange(1, 1 + count) =~= input.subrange(cursor, end));
            assert(input.take(cursor) + input.subrange(cursor, end) =~= input.take(end));
        }
    }
}

/// Decoding an encoding gives the input back.
pub proof fn law_packbits_round_trip(input: Seq<u8>)
    ensures
        unpacked(packed(input, 0), Seq::empty(), input.len() as int) == Ok::<
            Seq<u8>,
            CodecError,
        >(input),
{
    lemma_unpack_packed(input, 0);
    assert(input.take(0) =~= Seq::empty());
}

proof fn lemma_packed_len(input: Seq<u8>, cursor: int)
    requires
        0 <= cursor <= input.len(),
    ensures
        ({
            let left = input.len() - cursor;
            &&& packed(input, cursor).len() <= left + left / 128 + 1
            &&& run_at(input, cursor) >= 3 ==> packed(input, cursor).len() <= left + left / 128
            &&& left == 0 ==> packed(input, cursor).len() == 0
        }),
    decreases input.len() - cursor,
{
    if cursor < input.len() {
        lemma_run_from(input, cursor, 1);
        lemma_literal_end(input, cursor, cursor + 1);
        let run = run_at(input, cursor);
        if run >= 3 {
            lemma_packed_len(input, cursor + run);
        } else {
            lemma_packed_len(input, literal_end(input, cursor, cursor + 1));
        }
    }
}

/// An encoding exceeds its input by at most one byte per 128 and one more.
pub proof fn law_packbits_growth_is_bounded(input: Seq<u8>)
    ensures
        packed(input, 0).len() <= input.len() + input.len() / 128 + 1,
{
    lemma_packed_len(input, 0);
}

/// Whether an input of this length can be encoded within the limit.
pub open spec fn fits_encoder(len: int) -> bool {
    len + len / 128 + 2 <= MAX_ENCODED_BYTES
}

fn repeated_run(input: &[u8], start: usize) -> (run: usize)
    ensures
        run == run_at(input@, start as int),
{
    if start >= input.len() {
        return 0;
    }
    let value: u8 = input[start];
    let mut end: usize = start + 1;
    while end < input.len() && input[end] == value && end - start < 130
        invariant
            start < end <= input@.len(),
            end - start <= 130,
            value == input@[start as int],
            input@.len() <= usize::MAX,
            run_from(input@, start as int, end - start) == run_at(input@, start as int),
        decreases input@.len() - end,
    {
        end += 1;
    }
    end - start
}

/// Encodes bytes as runs and literals.
pub fn encode_packbits(input: &[u8]) -> (result: Result<Vec<u8>, CodecError>)
    ensures
        result is Ok <==> fits_encoder(input@.len() as int),
        result is Ok ==> result->Ok_0@ == packed(input@, 0),
        result is Err ==> result->Err_0 == CodecError::AllocationLimit,
{
    let slack: usize = input.len() / 128;
    match input.len().checked_add(slack) {
        Some(sum) => match sum.checked_add(2) {
            Some(worst_case) => if worst_case > MAX_ENCODED_BYTES {
                return Err(CodecError::AllocationLimit);
            },
            None => return Err(CodecError::AllocationLimit),
        },
        None => return Err(CodecError::AllocationLimit),
    }
    let mut output: Vec<u8> = Vec::new();
    let mut cursor: usize = 0;
    proof {
        assert(output@ + packed(input@, 0) =~= packed(input@, 0));
    }
    while cursor < input.len()
        invariant
            cursor <= input@.len(),
            fits_encoder(input@.len() as int),
            output@ + packed(input@, cursor as int) == packed(input@, 0),
        decreases input@.len() - cursor,
    {
        proof {
            lemma_run_from(input@, cursor as int, 1);
            lemma_literal_end(input@, cursor as int, cursor + 1);
        }
        let ghost before = output@;
        let run: usize = repeated_run(input, cursor);
        if run >= 3 {
            output.push(128 + (run - 3) as u8);
            output.push(input[cursor]);
            proof {
                assert(output@ =~= before + seq![(125 + run) as u8, input@[cursor as int]]);
                assert(output@ + packed(input@, cursor + run) =~= before + packed(
                    input@,
                    cursor as int,
                ));
            }
            cursor = cursor + run;
        } else {
            let start: usize = cursor;
            cursor = cursor + 1;
            while cursor < input.len() && cursor - start < 128 && repeated_run(input, cursor) < 3
                invariant
                    start < cursor <= input@.len(),
                    cursor - start <= 128,
                    input@.len() <= usize::MAX,
                    literal_end(input@, start as int, cursor as int) == literal_end(
                        input@,
                        start as int,
                        start + 1,
                    ),
                decreases input@.len() - cursor,
            {
                cursor += 1;
            }
            output.push((cursor - start - 1) as u8);
            append_bytes(&mut output, slice_subrange(input, start, cursor));
            proof {
                assert(output@ + packed(input@, cursor as int) =~= before + packed(
                    input@,
                    start as int,
                ));
                law_packbits_growth_is_bounded(input@);
                assert(output@.len() <= packed(input@, 0).len());
            }
        }
    }
    proof {
        assert(output@ + packed(input@, cursor as int) =~= output@);
    }
    Ok(output)
}

/// Decodes runs and literals into exactly `expected_len` bytes.
pub fn decode_packbits(payload: &[u8], expected_len: usize) -> (result: Result<
    Vec<u8>,
    CodecError,
>)
    ensures
        match unpacked(payload@, Seq::empty(), expected_len as int) {
            Ok(bytes) => result is Ok && result->Ok_0@ == bytes,
            Err(error) => result == Err::<Vec<u8>, CodecError>(error),
        },
{
    let mut output: Vec<u8> = Vec::new();
    let mut cursor: usize = 0;
    proof {
        assert(payload.len() <= usize::MAX);
        assert(payload@.skip(0) =~= payload@);
        assert(output@ =~= Seq::<u8>::empty());
    }
    while cursor < payload.len()
        invariant
            cursor <= payload@.len(),
            payload@.len() <= usize::MAX,
            output@.len() <= expected_len,
            unpacked(payload@.skip(cursor as int), output@, expected_len as int) == unpacked(
                payload@,
                Seq::empty(),
                expected_len as int,
            ),
        decreases payload@.len() - cursor,
    {
        let ghost rest = payload@.skip(cursor as int);
        let ghost before = output@;
        let control: u8 = payload[cursor];
        assert(rest[0] == control);
        if control >= 128 {
            let count: usize = control as usize - 125;
            if payload.len() - cursor < 2 {
                return Err(CodecError::MalformedRun);
            }
            let value: u8 = payload[cursor + 1];
            assert(rest[1] == value);
            if expected_len - output.len() < count {
                return Err(CodecError::DecodedLength);
            }
            let new_len: usize = output.len() + count;
            output.resize(new_len, value);
            proof {
                assert(output@ =~= before + repeated(value, count as nat)) by {
                    assert(output@.subrange(0, before.len() as int) == before);
                    assert forall|i: int| 0 <= i < output@.len() implies output@[i] == (before
                        + repeated(value, count as nat))[i] by {
                        if i < before.len() {
                            assert(output@.subrange(0, before.len() as int)[i] == before[i]);
                        }
                    }
                }
                assert(rest.skip(2) =~= payload@.skip(cursor + 2));
            }
            cursor = cursor + 2;
        } else {
            let count: usize = control as usize + 1;
            if payload.len() - cursor - 1 < count {
                return Err(CodecError::MalformedLiteral);
            }
            if expected_len - output.len() < count {
                return Err(CodecError::DecodedLength);
            }
            let start: usize = cursor + 1;
            append_bytes(&mut output, slice_subrange(payload, start, start + count));
            proof {
                assert(payload@.subrange(start as int, start + count) =~= rest.subrange(
                    1,
                    1 + count,
                ));
                assert(rest.skip(1 + count) =~= payload@.skip(cursor + 1 + count));
            }
            cursor = start + count;
        }
    }
    proof {
        assert(payload@.skip(cursor as int) =~= Seq::empty());
    }
    if output.len() != expected_len {
        return Err(CodecError::DecodedLength);
    }
    Ok(output)
}

// ---------------------------------------------------------------------------
// Frames
// ---------------------------------------------------------------------------
/// A raw frame. `format` is the frame layer's pixel-format code.
#[derive(Debug)]
pub struct RawFrame {
    pub width: u32,
    pub height: u32,
    pub format: u8,
    pub stride: u32,
    pub capture_sequence: u64,
    pub capture_timestamp_ns: u64,
    pub data: Vec<u8>,
}

/// A raw frame, with its bytes as a sequence.
pub struct RawFrameView {
    pub width: u32,
    pub height: u32,
    pub format: u8,
    pub stride: u32,
    pub capture_sequence: u64,
    pub capture_timestamp_ns: u64,
    pub data: Seq<u8>,
}

impl View for RawFrame {
    type V = RawFrameView;

    open spec fn view(&self) -> RawFrameView {
        RawFrameView {
            width: self.width,
            height: self.height,
            format: self.format,
            stride: self.stride,
            capture_sequence: self.capture_sequence,
            capture_timestamp_ns: self.capture_timestamp_ns,
            data: self.data@,
        }
    }
}

/// The header fields of an encoded frame.
#[derive(Debug, Clone, Copy, PartialEq, Eq, Structural)]
pub struct EncodedHeader {
    pub format: u8,
    pub width: u32,
    pub height: u32,
    pub stride: u32,
    pub raw_len: u32,
    pub payload_len: u32,
    pub capture_sequence: u64,
    pub checksum: u64,
}

/// The four bytes that every encoded frame starts with: "LDTC".
pub open spec fn magic() -> Seq<u8> {
    seq![0x4c, 0x44, 0x54, 0x43]
}

/// The bytes of a header.
pub open spec fn header_bytes(header: EncodedHeader) -> Seq<u8> {
    magic() + seq![1u8, header.format] + be_digits(1, 2) + be_digits(header.width as int, 4)
        + be_digits(header.height as int, 4) + be_digits(header.stride as int, 4) + be_digits(
        header.raw_len as int,
        4,
    ) + be_digits(header.payload_len as int, 4) + be_digits(header.capture_sequence as int, 8)
        + be_digits(header.checksum as int, 8)
}

/// The header that the bytes of an encoded frame spell.
pub open spec fn header_of(bytes: Seq<u8>) -> EncodedHeader {
    EncodedHeader {
        format: bytes[5],
        width: be_value(bytes.subrange(8, 12)) as u32,
        height: be_value(bytes.subrange(12, 16)) as u32,
        stride: be_value(bytes.subrange(16, 20)) as u32,
        raw_len: be_value(bytes.subrange(20, 24)) as u32,
        payload_len: be_value(bytes.subrange(24, 28)) as u32,
        capture_sequence: be_value(bytes.subrange(28, 36)) as u64,
        checksum: be_value(bytes.subrange(36, 44)) as u64,
    }
}

/// What the encoder writes for a frame with the given checksum.
pub open spec fn encoded_frame(frame: RawFrame, checksum: u64) -> Seq<u8> {
    let payload = packed(frame.data@, 0);
    header_bytes(
        EncodedHeader {
            format: frame.format,
            width: frame.width,
            height: frame.height,
            stride: frame.stride,
            raw_len: frame.data@.len() as u32,
            payload_len: payload.len() as u32,
            capture_sequence: frame.capture_sequence,
            checksum,
        },
    ) + payload
}

/// Why the header of an encoded frame is refused. `format` is the frame
/// layer's verdict on the format code, `expected_raw` its length for the
/// declared dimensions.
pub open spec fn header_fault(
    bytes: Seq<u8>,
    format: Result<(), FrameError>,
    expected_raw: Result<usize, FrameError>,
) -> Option<CodecError> {
    if bytes.len() < HEADER_LEN {
        Some(CodecError::Truncated)
    } else if bytes.take(4) != magic() {
        Some(CodecError::Magic)
    } else if bytes[4] != 1 {
        Some(CodecError::Version(bytes[4]))
    } else if format is Err {
        Some(CodecError::Frame(format->Err_0))
    } else if be_value(bytes.subrange(6, 8)) != 1 {
        Some(CodecError::Flags(be_value(bytes.subrange(6, 8)) as u16))
    } else if expected_raw is Err {
        Some(CodecError::Frame(expected_raw->Err_0))
    } else if header_of(bytes).raw_len != expected_raw->Ok_0 {
        Some(
            CodecError::RawLength {
                declared: header_of(bytes).raw_len as usize,
                expected: expected_raw->Ok_0,
            },
        )
    } else if header_of(bytes).payload_len > MAX_ENCODED_BYTES || HEADER_LEN + header_of(
        bytes,
    ).payload_len != bytes.len() {
        Some(CodecError::PayloadLength)
    } else {
        None
    }
}

/// A decoded frame that the frame layer has not accepted yet. The timestamp is
/// the receiver's: an encoded frame carries none.
#[derive(Debug)]
pub struct DecodedFrame {
    pub header: EncodedHeader,
    pub capture_timestamp_ns: u64,
    pub data: Vec<u8>,
}

/// The frame that a header, a timestamp and the bytes make up.
pub open spec fn described(
    header: EncodedHeader,
    capture_timestamp_ns: u64,
    data: Seq<u8>,
) -> RawFrameView {
    RawFrameView {
        width: header.width,
        height: header.height,
        format: header.format,
        stride: header.stride,
        capture_sequence: header.capture_sequence,
        capture_timestamp_ns,
        data,
    }
}

/// What decoding gives, all steps taken together. `format`, `expected_raw` and
/// `accepted` are the frame layer's verdicts on the format code, the dimensions
/// and the decoded frame, `actual` is its checksum of the decoded bytes.
pub open spec fn decoded_frame(
    bytes: Seq<u8>,
    capture_timestamp_ns: u64,
    format: Result<(), FrameError>,
    expected_raw: Result<usize, FrameError>,
    actual: u64,
    accepted: Result<(), FrameError>,
) -> Result<RawFrameView, CodecError> {
    match header_fault(bytes, format, expected_raw) {
        Some(error) => Err(error),
        None => match unpacked(
            bytes.skip(HEADER_LEN as int),
            Seq::empty(),
            header_of(bytes).raw_len as int,
        ) {
            Err(error) => Err(error),
            Ok(data) => if actual != header_of(bytes).checksum {
                Err(CodecError::Checksum { expected: header_of(bytes).checksum, actual })
            } else {
                match accepted {
                    Err(error) => Err(CodecError::Frame(error)),
                    Ok(()) => Ok(described(header_of(bytes), capture_timestamp_ns, data)),
                }
            },
        },
    }
}

/// Exact PackBits-like byte codec.
#[derive(Debug, Clone, Copy)]
pub struct ExactTestCodec;

impl ExactTestCodec {
    /// Encodes a frame. `checksum` is the frame layer's checksum of the data.
    pub fn encode(frame: &RawFrame, checksum: u64) -> (result: Result<Vec<u8>, CodecError>)
        ensures
            result is Ok <==> fits_encoder(frame.data@.len() as int),
            result is Ok ==> result->Ok_0@ == encoded_frame(*frame, checksum),
            result is Err ==> result->Err_0 == CodecError::AllocationLimit,
    {
        let payload: Vec<u8> = match encode_packbits(frame.data.as_slice()) {
            Ok(payload) => payload,
            Err(error) => return Err(error),
        };
        proof {
            law_packbits_growth_is_bounded(frame.data@);
        }
        let mut output: Vec<u8> = Vec::new();
        output.push(0x4c);
        output.push(0x44);
        output.push(0x54);
        output.push(0x43);
        output.push(VERSION);
        output.push(frame.format);
        assert(output@ =~= magic() + seq![1u8, frame.format]);
        push_u16(&mut output, FLAG_PACKBITS);
        push_u32(&mut output, frame.width);
        push_u32(&mut output, frame.height);
        push_u32(&mut output, frame.stride);
        push_u32(&mut output, frame.data.len() as u32);
        push_u32(&mut output, payload.len() as u32);
        push_u64(&mut output, frame.capture_sequence);
        push_u64(&mut output, checksum);
        append_bytes(&mut output, payload.as_slice());
        Ok(output)
    }

    /// Reads the header fields, if there are enough bytes for a header.
    pub fn read_header(bytes: &[u8]) -> (header: Option<EncodedHeader>)
        ensures
            header == (if bytes@.len() < HEADER_LEN {
                None::<EncodedHeader>
            } else {
                Some(header_of(bytes@))
            }),
    {
        if bytes.len() < HEADER_LEN {
            return None;
        }
        Some(
            EncodedHeader {
                format: bytes[5],
                width: read_u32(bytes, 8),
                height: read_u32(bytes, 12),
                stride: read_u32(bytes, 16),
                raw_len: read_u32(bytes, 20),
                payload_len: read_u32(bytes, 24),
                capture_sequence: read_u64(bytes, 28),
                checksum: read_u64(bytes, 36),
            },
        )
    }

    /// Decodes a frame, given the frame layer's verdict on the format code and
    /// its length for the declared dimensions. The frame keeps the timestamp
    /// that the receiver gives.
    pub fn decode(
        bytes: &[u8],
        capture_timestamp_ns: u64,
        format: Result<(), FrameError>,
        expected_raw: Result<usize, FrameError>,
    ) -> (result: Result<DecodedFrame, CodecError>)
        ensures
            match header_fault(bytes@, format, expected_raw) {
                Some(error) => result == Err::<DecodedFrame, CodecError>(error),
                None => match unpacked(
                    bytes@.skip(HEADER_LEN as int),
                    Seq::empty(),
                    header_of(bytes@).raw_len as int,
                ) {
                    Ok(data) => result is Ok && result->Ok_0.header == header_of(bytes@)
                        && result->Ok_0.capture_timestamp_ns == capture_timestamp_ns
                        && result->Ok_0.data@ == data,
                    Err(error) => result == Err::<DecodedFrame, CodecError>(error),
                },
            },
    {
        let header: EncodedHeader = match Self::read_header(bytes) {
            Some(header) => header,
            None => return Err(CodecError::Truncated),
        };
        proof {
            assert(bytes@.take(4) =~= seq![bytes@[0], bytes@[1], bytes@[2], bytes@[3]]);
        }
        if bytes[0] != 0x4c || bytes[1] != 0x44 || bytes[2] != 0x54 || bytes[3] != 0x43 {
            proof {
                assert(bytes@.take(4) != magic()) by {
                    assert(magic()[0] == 0x4c && magic()[1] == 0x44 && magic()[2] == 0x54
                        && magic()[3] == 0x43);
                }
            }
            return Err(CodecError::Magic);
        }
        assert(bytes@.take(4) =~= magic());
        if bytes[4] != VERSION {
            return Err(CodecError::Version(bytes[4]));
        }
        match format {
            Ok(()) => {},
            Err(error) => return Err(CodecError::Frame(error)),
        }
        let flags: u16 = read_u16(bytes, 6);
        if flags != FLAG_PACKBITS {
            return Err(CodecError::Flags(flags));
        }
        let expected: usize = match expected_raw {
            Ok(expected) => expected,
            Err(error) => return Err(CodecError::Frame(error)),
        };
        let raw_len: usize = header.raw_len as usize;
        if raw_len != expected {
            return Err(CodecError::RawLength { declared: raw_len, expected });
        }
        let payload_len: usize = header.payload_len as usize;
        if payload_len > MAX_ENCODED_BYTES || bytes.len() - HEADER_LEN != payload_len {
            return Err(CodecError::PayloadLength);
        }
        let payload: &[u8] = slice_subrange(bytes, HEADER_LEN, bytes.len());
        assert(payload@ =~= bytes@.skip(HEADER_LEN as int));
        match decode_packbits(payload, raw_len) {
            Ok(data) => Ok(DecodedFrame { header, capture_timestamp_ns, data }),
            Err(error) => Err(error),
        }
    }

    /// Compares the frame layer's checksum of the decoded data with the
    /// encoded one.
    pub fn verify_checksum(frame: DecodedFrame, actual: u64) -> (result: Result<
        DecodedFrame,
        CodecError,
    >)
        ensures
            result == (if actual == frame.header.checksum {
                Ok::<DecodedFrame, CodecError>(frame)
            } else {
                Err::<DecodedFrame, CodecError>(
                    CodecError::Checksum { expected: frame.header.checksum, actual },
                )
            }),
    {
        if actual != frame.header.checksum {
            return Err(CodecError::Checksum { expected: frame.header.checksum, actual });
        }
        Ok(frame)
    }

    /// The decoded frame, if the frame layer accepts it.
    pub fn into_frame(frame: DecodedFrame, accepted: Result<(), FrameError>) -> (result: Result<
        RawFrame,
        CodecError,
    >)
        ensures
            match accepted {
                Ok(()) => result is Ok && result->Ok_0@ == described(
                    frame.header,
                    frame.capture_timestamp_ns,
                    frame.data@,
                ),
                Err(error) => result == Err::<RawFrame, CodecError>(CodecError::Frame(error)),
            },
    {
        match accepted {
            Err(error) => Err(CodecError::Frame(error)),
            Ok(()) => Ok(
                RawFrame {
                    width: frame.header.width,
                    height: frame.header.height,
                    format: frame.header.format,
                    stride: frame.header.stride,
                    capture_sequence: frame.header.capture_sequence,
                    capture_timestamp_ns: frame.capture_timestamp_ns,
                    data: frame.data,
                },
            ),
        }
    }
}

/// Decoding what was encoded gives every field and byte back, with the
/// receiver's timestamp in place of the sender's, provided the frame layer
/// accepts the format and the frame, and agrees on the length and the checksum.
pub proof fn law_codec_round_trip(frame: RawFrame, checksum: u64, capture_timestamp_ns: u64)
    requires
        fits_encoder(frame.data@.len() as int),
    ensures
        decoded_frame(
            encoded_frame(frame, checksum),
            capture_timestamp_ns,
            Ok(()),
            Ok(frame.data@.len() as usize),
            checksum,
            Ok(()),
        ) == Ok::<RawFrameView, CodecError>(RawFrameView { capture_timestamp_ns, ..frame@ }),
{
    let payload = packed(frame.data@, 0);
    law_packbits_growth_is_bounded(frame.data@);
    law_packbits_round_trip(frame.data@);
    let header = EncodedHeader {
        format: frame.format,
        width: frame.width,
        height: frame.height,
        stride: frame.stride,
        raw_len: frame.data@.len() as u32,
        payload_len: payload.len() as u32,
        capture_sequence: frame.capture_sequence,
        checksum,
    };
    lemma_header_fields(header, payload);
}

proof fn lemma_header_fields(header: EncodedHeader, payload: Seq<u8>)
    ensures
        ({
            let bytes = header_bytes(header) + payload;
            &&& header_bytes(header).len() == HEADER_LEN
            &&& header_of(bytes) == header
            &&& bytes.take(4) == magic()
            &&& bytes[4] == 1
            &&& be_value(bytes.subrange(6, 8)) == 1
            &&& bytes.skip(HEADER_LEN as int) == payload
        }),
{
    lemma_bounds();
    law_be_round_trip(1, 2);
    law_be_round_trip(header.width as int, 4);
    law_be_round_trip(header.height as int, 4);
    law_be_round_trip(header.stride as int, 4);
    law_be_round_trip(header.raw_len as int, 4);
    law_be_round_trip(header.payload_len as int, 4);
    law_be_round_trip(header.capture_sequence as int, 8);
    law_be_round_trip(header.checksum as int, 8);
    let bytes = header_bytes(header) + payload;
    assert(bytes.take(4) =~= magic());
    assert(bytes.subrange(6, 8) =~= be_digits(1, 2));
    assert(bytes.subrange(8, 12) =~= be_digits(header.width as int, 4));
    assert(bytes.subrange(12, 16) =~= be_digits(header.height as int, 4));
    assert(bytes.subrange(16, 20) =~= be_digits(header.stride as int, 4));
    assert(bytes.subrange(20, 24) =~= be_digits(header.raw_len as int, 4));
    assert(bytes.subrange(24, 28) =~= be_digits(header.payload_len as int, 4));
    assert(bytes.subrange(28, 36) =~= be_digits(header.capture_sequence as int, 8));
    assert(bytes.subrange(36, 44) =~= be_digits(header.checksum as int, 8));
    assert(bytes.skip(HEADER_LEN as int) =~= payload);
}

} // verus!
