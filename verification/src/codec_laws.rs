//! What the test codec writes and reads, byte by byte.

use crate::bytes::{be_digits, be_value};
use crate::codec::{
    decoded_frame, fits_encoder, header_bytes, header_fault, header_of, literal_end, packed,
    run_at, run_from, unpacked, CodecError, EncodedHeader, FrameError, RawFrameView, HEADER_LEN,
    MAX_ENCODED_BYTES,
};
use vstd::prelude::*;

verus! {

/// A header has 44 bytes, and no frame more than 320 MiB. Data is encoded
/// exactly if it stays below that with a byte for every 128 and two more.
pub proof fn law_codec_limits(len: nat)
    ensures
        HEADER_LEN == 44,
        MAX_ENCODED_BYTES == 335_544_320,
        fits_encoder(len as int) <==> len + len / 128 <= 335_544_318,
{
}

proof fn lemma_run_is_longest(input: Seq<u8>, start: int, count: int)
    requires
        0 <= start < input.len(),
        1 <= count <= 130,
        start + count <= input.len(),
        forall|i: int| start <= i < start + count ==> input[i] == input[start],
    ensures
        ({
            let run = run_from(input, start, count);
            &&& count <= run <= 130
            &&& start + run <= input.len()
            &&& forall|i: int| start <= i < start + run ==> input[i] == input[start]
            &&& run == 130 || start + run == input.len() || input[start + run] != input[start]
        }),
    decreases 130 - count,
{
    if start + count < input.len() && input[start + count] == input[start] && count < 130 {
        lemma_run_is_longest(input, start, count + 1);
    }
}

/// A run is as long as the same byte repeats, and at most 130.
pub proof fn law_runs_are_as_long_as_they_go(input: Seq<u8>, start: int)
    requires
        0 <= start < input.len(),
    ensures
        ({
            let run = run_at(input, start);
            &&& 1 <= run <= 130
            &&& start + run <= input.len()
            &&& forall|i: int| start <= i < start + run ==> input[i] == input[start]
            &&& run == 130 || start + run == input.len() || input[start + run] != input[start]
        }),
{
    lemma_run_is_longest(input, start, 1);
}

/// A literal goes on until a byte repeats three times, the data ends, or it has
/// 128 bytes.
pub proof fn law_literals_end_before_a_run(input: Seq<u8>, start: int, end: int)
    requires
        0 <= start < end <= input.len(),
        end - start <= 128,
    ensures
        ({
            let last = literal_end(input, start, end);
            &&& end <= last <= input.len()
            &&& last - start <= 128
            &&& forall|i: int| end <= i < last ==> #[trigger] run_at(input, i) < 3
            &&& last == input.len() || last - start == 128 || run_at(input, last) >= 3
        }),
    decreases input.len() - end,
{
    if end < input.len() && end - start < 128 && run_at(input, end) < 3 {
        law_literals_end_before_a_run(input, start, end + 1);
    }
}

/// Where a byte repeats three times or more, the run is written as its length
/// plus 125 and the byte. Elsewhere a literal is written as its length less one
/// and its bytes.
pub proof fn law_runs_and_literals_are_marked(input: Seq<u8>, cursor: int)
    requires
        0 <= cursor < input.len(),
    ensures
        ({
            let run = run_at(input, cursor);
            let end = literal_end(input, cursor, cursor + 1);
            &&& run >= 3 ==> packed(input, cursor).len() >= 2 && packed(input, cursor)[0] == 125
                + run && packed(input, cursor)[1] == input[cursor] && packed(input, cursor).skip(2)
                == packed(input, cursor + run)
            &&& run < 3 ==> {
                let count = end - cursor;
                &&& 1 <= count <= 128
                &&& packed(input, cursor).len() >= 1 + count
                &&& packed(input, cursor)[0] == count - 1
                &&& packed(input, cursor).subrange(1, 1 + count) == input.subrange(cursor, end)
                &&& packed(input, cursor).skip(1 + count) == packed(input, end)
            }
        }),
        packed(input, input.len() as int) == Seq::<u8>::empty(),
{
    law_runs_are_as_long_as_they_go(input, cursor);
    law_literals_end_before_a_run(input, cursor, cursor + 1);
    let end = literal_end(input, cursor, cursor + 1);
    let count = end - cursor;
    if run_at(input, cursor) < 3 {
        let head = seq![(count - 1) as u8] + input.subrange(cursor, end);
        assert(packed(input, cursor) == head + packed(input, end));
        assert(packed(input, cursor).subrange(1, 1 + count) =~= input.subrange(cursor, end));
        assert(packed(input, cursor).skip(1 + count) =~= packed(input, end));
    } else {
        let head = seq![(125 + run_at(input, cursor)) as u8, input[cursor]];
        assert(packed(input, cursor) == head + packed(input, cursor + run_at(input, cursor)));
        assert(packed(input, cursor).skip(2) =~= packed(input, cursor + run_at(input, cursor)));
    }
}

/// A mark of 128 or more stands for the next byte, repeated 125 times less than
/// the mark.
pub proof fn law_run_is_read_back(
    mark: u8,
    value: u8,
    rest: Seq<u8>,
    produced: Seq<u8>,
    expected_len: nat,
)
    requires
        mark >= 128,
    ensures
        ({
            let copies = Seq::new((mark - 125) as nat, |i: int| value);
            let answer = unpacked(seq![mark, value] + rest, produced, expected_len as int);
            &&& produced.len() + mark - 125 <= expected_len ==> answer == unpacked(
                rest,
                produced + copies,
                expected_len as int,
            )
            &&& produced.len() + mark - 125 > expected_len ==> answer == Err::<Seq<u8>, CodecError>(
                CodecError::DecodedLength,
            )
            &&& unpacked(seq![mark], produced, expected_len as int) == Err::<Seq<u8>, CodecError>(
                CodecError::MalformedRun,
            )
        }),
{
    let payload = seq![mark, value] + rest;
    assert(payload.skip(2) =~= rest);
    assert(crate::codec::repeated(value, (mark - 125) as nat) =~= Seq::new(
        (mark - 125) as nat,
        |i: int| value,
    ));
}

/// A mark below 128 stands for the bytes that follow it, one more than the
/// mark.
pub proof fn law_literal_is_read_back(
    mark: u8,
    bytes: Seq<u8>,
    rest: Seq<u8>,
    produced: Seq<u8>,
    expected_len: nat,
)
    requires
        mark < 128,
    ensures
        bytes.len() == mark + 1 ==> {
            let answer = unpacked(seq![mark] + bytes + rest, produced, expected_len as int);
            &&& produced.len() + mark + 1 <= expected_len ==> answer == unpacked(
                rest,
                produced + bytes,
                expected_len as int,
            )
            &&& produced.len() + mark + 1 > expected_len ==> answer == Err::<Seq<u8>, CodecError>(
                CodecError::DecodedLength,
            )
        },
        bytes.len() <= mark ==> unpacked(seq![mark] + bytes, produced, expected_len as int) == Err::<
            Seq<u8>,
            CodecError,
        >(CodecError::MalformedLiteral),
{
    if bytes.len() == mark + 1 {
        let payload = seq![mark] + bytes + rest;
        assert(payload.skip(1 + (mark + 1)) =~= rest);
        assert(payload.subrange(1, 1 + (mark + 1)) =~= bytes);
    }
}

/// Reading ends well exactly with as many bytes as were announced.
pub proof fn law_reading_ends_with_the_announced_bytes(produced: Seq<u8>, expected_len: nat)
    ensures
        unpacked(Seq::empty(), produced, expected_len as int) == (if produced.len()
            == expected_len {
            Ok::<Seq<u8>, CodecError>(produced)
        } else {
            Err::<Seq<u8>, CodecError>(CodecError::DecodedLength)
        }),
{
}

proof fn lemma_digits_len(value: int, count: nat)
    ensures
        be_digits(value, count).len() == count,
    decreases count,
{
    if count > 0 {
        lemma_digits_len(value / 256, (count - 1) as nat);
    }
}

/// A header starts with the four letters of the codec, its version and the
/// format, and holds each field at its place.
pub proof fn law_header_has_its_layout(header: EncodedHeader)
    ensures
        ({
            let bytes = header_bytes(header);
            &&& bytes.len() == 44
            &&& bytes[0] == 76 && bytes[1] == 68 && bytes[2] == 84 && bytes[3] == 67
            &&& bytes[4] == 1
            &&& bytes[5] == header.format
            &&& bytes[6] == 0 && bytes[7] == 1
            &&& bytes.subrange(8, 12) == be_digits(header.width as int, 4)
            &&& bytes.subrange(12, 16) == be_digits(header.height as int, 4)
            &&& bytes.subrange(16, 20) == be_digits(header.stride as int, 4)
            &&& bytes.subrange(20, 24) == be_digits(header.raw_len as int, 4)
            &&& bytes.subrange(24, 28) == be_digits(header.payload_len as int, 4)
            &&& bytes.subrange(28, 36) == be_digits(header.capture_sequence as int, 8)
            &&& bytes.subrange(36, 44) == be_digits(header.checksum as int, 8)
        }),
{
    reveal_with_fuel(be_digits, 3);
    let flags = be_digits(1, 2);
    assert(flags.len() == 2 && flags[0] == 0 && flags[1] == 1);
    lemma_digits_len(header.width as int, 4);
    lemma_digits_len(header.height as int, 4);
    lemma_digits_len(header.stride as int, 4);
    lemma_digits_len(header.raw_len as int, 4);
    lemma_digits_len(header.payload_len as int, 4);
    lemma_digits_len(header.capture_sequence as int, 8);
    lemma_digits_len(header.checksum as int, 8);
}

/// A header is taken exactly if it is whole and starts with the letters and the
/// version of the codec, the format and the flags are known, the announced
/// bytes are those of the frame, and the payload is just what follows. What
/// fails first is told.
pub proof fn law_whole_headers_are_taken(
    bytes: Seq<u8>,
    format: Result<(), FrameError>,
    expected_raw: Result<usize, FrameError>,
)
    ensures
        ({
            let verdict = header_fault(bytes, format, expected_raw);
            let whole = bytes.len() >= 44;
            let letters = bytes[0] == 76 && bytes[1] == 68 && bytes[2] == 84 && bytes[3] == 67;
            let version = bytes[4] == 1;
            let flags = bytes[6] == 0 && bytes[7] == 1;
            let announced = header_of(bytes).raw_len;
            let follows = header_of(bytes).payload_len;
            let right_raw = expected_raw is Ok && announced == expected_raw->Ok_0;
            let right_payload = follows <= 335_544_320 && bytes.len() == 44 + follows;
            &&& verdict is None <==> (whole && letters && version && format is Ok && flags
                && right_raw && right_payload)
            &&& !whole ==> verdict == Some(CodecError::Truncated)
            &&& whole && !letters ==> verdict == Some(CodecError::Magic)
            &&& whole && letters && !version ==> verdict == Some(CodecError::Version(bytes[4]))
            &&& whole && letters && version && format is Err ==> verdict == Some(
                CodecError::Frame(format->Err_0),
            )
            &&& whole && letters && version && format is Ok && !flags ==> verdict is Some
                && verdict->Some_0 is Flags && verdict->Some_0->Flags_0 == 256 * bytes[6] + bytes[7]
            &&& whole && letters && version && format is Ok && flags && expected_raw is Err
                ==> verdict == Some(CodecError::Frame(expected_raw->Err_0))
            &&& whole && letters && version && format is Ok && flags && expected_raw is Ok
                && !right_raw ==> verdict == Some(
                CodecError::RawLength {
                    declared: announced as usize,
                    expected: expected_raw->Ok_0,
                },
            )
            &&& whole && letters && version && format is Ok && flags && right_raw && !right_payload
                ==> verdict == Some(CodecError::PayloadLength)
        }),
{
    if bytes.len() >= 44 {
        let magic = crate::codec::magic();
        let front = bytes.take(4);
        assert(front[0] == bytes[0] && front[1] == bytes[1] && front[2] == bytes[2] && front[3]
            == bytes[3]);
        assert(front == magic <==> (bytes[0] == 76 && bytes[1] == 68 && bytes[2] == 84 && bytes[3]
            == 67)) by {
            if bytes[0] == 76 && bytes[1] == 68 && bytes[2] == 84 && bytes[3] == 67 {
                assert(front =~= magic);
            } else {
                assert(magic[0] == 76 && magic[1] == 68 && magic[2] == 84 && magic[3] == 67);
            }
        }
        let flags = bytes.subrange(6, 8);
        reveal_with_fuel(be_value, 3);
        assert(flags.drop_last().drop_last() =~= Seq::<u8>::empty());
        assert(be_value(flags) == 256 * bytes[6] + bytes[7]);
    }
}

/// A whole frame is read exactly if its payload unpacks to the announced bytes,
/// they have the checksum of the header, and the frame takes them.
pub proof fn law_checked_frames_are_read(
    bytes: Seq<u8>,
    capture_timestamp_ns: u64,
    expected_raw: usize,
    actual: u64,
    accepted: Result<(), FrameError>,
    data: Seq<u8>,
)
    requires
        header_fault(bytes, Ok(()), Ok(expected_raw)) is None,
        unpacked(bytes.skip(44), Seq::empty(), expected_raw as int) == Ok::<Seq<u8>, CodecError>(
            data,
        ),
    ensures
        ({
            let header = header_of(bytes);
            let answer = decoded_frame(
                bytes,
                capture_timestamp_ns,
                Ok(()),
                Ok(expected_raw),
                actual,
                accepted,
            );
            &&& actual != header.checksum ==> answer == Err::<RawFrameView, CodecError>(
                CodecError::Checksum { expected: header.checksum, actual },
            )
            &&& actual == header.checksum && accepted is Err ==> answer == Err::<
                RawFrameView,
                CodecError,
            >(CodecError::Frame(accepted->Err_0))
            &&& actual == header.checksum && accepted is Ok ==> answer == Ok::<
                RawFrameView,
                CodecError,
            >(
                RawFrameView {
                    width: header.width,
                    height: header.height,
                    format: header.format,
                    stride: header.stride,
                    capture_sequence: header.capture_sequence,
                    capture_timestamp_ns,
                    data,
                },
            )
        }),
{
}

} // verus!
