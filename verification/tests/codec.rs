use latencydesk::codec::{
    decode_packbits, encode_packbits, CodecError, ExactTestCodec, FrameError,
    RawFrame, HEADER_LEN,
};

const BGRA: u8 = 1;

/// The frame layer's checksum stands outside the codec; any mixing of the
/// bytes serves here.
fn checksum64(data: &[u8]) -> u64 {
    let mut hash: u64 = 0xcbf2_9ce4_8422_2325;
    for byte in data {
        hash = (hash ^ u64::from(*byte)).wrapping_mul(0x0000_0100_0000_01b3);
    }
    hash
}

fn raw_len(width: u32, height: u32) -> usize {
    width as usize * height as usize * 4
}

fn text_like(width: u32, height: u32, sequence: u64) -> RawFrame {
    let data = (0..raw_len(width, height))
        .map(|index| if (index / 7) % 5 == 0 { 0x20 } else { 0xf0 })
        .collect();
    RawFrame {
        width,
        height,
        format: BGRA,
        stride: width * 4,
        capture_sequence: sequence,
        capture_timestamp_ns: 123,
        data,
    }
}

fn gradient(width: u32, height: u32) -> RawFrame {
    let data = (0..raw_len(width, height))
        .map(|index| (index % 256) as u8)
        .collect();
    RawFrame {
        width,
        height,
        format: BGRA,
        stride: width * 4,
        capture_sequence: 0,
        capture_timestamp_ns: 123,
        data,
    }
}

fn encode(frame: &RawFrame) -> Vec<u8> {
    ExactTestCodec::encode(frame, checksum64(&frame.data)).expect("encode")
}

fn decode(bytes: &[u8], width: u32, height: u32) -> Result<RawFrame, CodecError> {
    let decoded = ExactTestCodec::decode(bytes, 456, Ok(()), Ok(raw_len(width, height)))?;
    let actual = checksum64(&decoded.data);
    let decoded = ExactTestCodec::verify_checksum(decoded, actual)?;
    ExactTestCodec::into_frame(decoded, Ok(()))
}

#[test]
fn exact_round_trip_bgra() {
    let frame = text_like(96, 64, 17);
    let encoded = encode(&frame);
    let decoded = decode(&encoded, 96, 64).expect("decode");
    assert_eq!(decoded.data, frame.data);
    assert_eq!(decoded.capture_sequence, frame.capture_sequence);
}

#[test]
fn corrupted_payload_fails_checksum_or_structure() {
    let frame = gradient(32, 32);
    let mut encoded = encode(&frame);
    let last = encoded.len() - 1;
    encoded[last] ^= 0x40;
    assert!(decode(&encoded, 32, 32).is_err());
}

#[test]
fn decompression_bomb_is_rejected() {
    let mut encoded = vec![0_u8; HEADER_LEN];
    encoded[0..4].copy_from_slice(b"LDTC");
    encoded[4] = 1;
    encoded[5] = BGRA;
    encoded[6..8].copy_from_slice(&1_u16.to_be_bytes());
    encoded[8..12].copy_from_slice(&1_u32.to_be_bytes());
    encoded[12..16].copy_from_slice(&1_u32.to_be_bytes());
    encoded[16..20].copy_from_slice(&4_u32.to_be_bytes());
    encoded[20..24].copy_from_slice(&4_u32.to_be_bytes());
    encoded[24..28].copy_from_slice(&2_u32.to_be_bytes());
    encoded.extend_from_slice(&[0xff, 0]);
    assert_eq!(
        ExactTestCodec::decode(&encoded, 456, Ok(()), Ok(4)).err(),
        Some(CodecError::DecodedLength)
    );
}

#[test]
fn packbits_writes_runs_and_literals() {
    let packed = encode_packbits(&[9, 9, 9, 9, 1, 2, 3]).expect("pack");
    assert_eq!(decode_packbits(&packed, 7).expect("unpack"), [9, 9, 9, 9, 1, 2, 3]);
    assert!(packed.len() < 7 + 1);
    for len in [0, 1, 2, 127, 128, 129, 130, 131, 300] {
        let run = vec![5_u8; len];
        let packed = encode_packbits(&run).expect("pack");
        assert_eq!(decode_packbits(&packed, len).expect("unpack"), run);
        let mixed: Vec<u8> = (0..len).map(|index| (index * 37 % 251) as u8).collect();
        let packed = encode_packbits(&mixed).expect("pack");
        assert_eq!(decode_packbits(&packed, len).expect("unpack"), mixed);
    }
}

#[test]
fn unpacking_checks_its_structure() {
    assert_eq!(
        decode_packbits(&[0xff], 200).err(),
        Some(CodecError::MalformedRun)
    );
    assert_eq!(
        decode_packbits(&[3, 1, 2], 200).err(),
        Some(CodecError::MalformedLiteral)
    );
    assert_eq!(
        decode_packbits(&[0, 1], 2).err(),
        Some(CodecError::DecodedLength)
    );
    assert_eq!(
        decode_packbits(&[1, 1, 2], 1).err(),
        Some(CodecError::DecodedLength)
    );
}

#[test]
fn header_faults_are_told_apart() {
    let frame = gradient(2, 2);
    let encoded = encode(&frame);
    assert_eq!(
        decode(&encoded[..HEADER_LEN - 1], 2, 2).err(),
        Some(CodecError::Truncated)
    );
    let mut magic = encoded.clone();
    magic[0] = b'X';
    assert_eq!(decode(&magic, 2, 2).err(), Some(CodecError::Magic));
    let mut version = encoded.clone();
    version[4] = 9;
    assert_eq!(decode(&version, 2, 2).err(), Some(CodecError::Version(9)));
    let mut flags = encoded.clone();
    flags[7] = 2;
    assert_eq!(decode(&flags, 2, 2).err(), Some(CodecError::Flags(2)));
    assert_eq!(
        decode(&encoded, 2, 3).err(),
        Some(CodecError::RawLength {
            declared: 16,
            expected: 24,
        })
    );
    let mut longer = encoded.clone();
    longer.push(0);
    assert_eq!(decode(&longer, 2, 2).err(), Some(CodecError::PayloadLength));
    let bad_frame = FrameError { code: 4 };
    assert_eq!(
        ExactTestCodec::decode(&encoded, 456, Err(bad_frame), Ok(16)).err(),
        Some(CodecError::Frame(bad_frame))
    );
    assert_eq!(
        ExactTestCodec::decode(&encoded, 456, Ok(()), Err(bad_frame)).err(),
        Some(CodecError::Frame(bad_frame))
    );
    let decoded = ExactTestCodec::decode(&encoded, 456, Ok(()), Ok(16)).expect("decode");
    let expected = decoded.header.checksum;
    assert_eq!(
        ExactTestCodec::verify_checksum(decoded, expected ^ 1).err(),
        Some(CodecError::Checksum {
            expected,
            actual: expected ^ 1,
        })
    );
}

#[test]
fn header_fields_stand_in_their_places() {
    let frame = RawFrame {
        width: 3,
        height: 2,
        format: 7,
        stride: 12,
        capture_sequence: 0x0102_0304_0506_0708,
        capture_timestamp_ns: 9,
        data: vec![1; 24],
    };
    let encoded = ExactTestCodec::encode(&frame, 0x1112_1314_1516_1718).expect("encode");
    assert_eq!(&encoded[..8], &[b'L', b'D', b'T', b'C', 1, 7, 0, 1]);
    assert_eq!(&encoded[8..20], &[0, 0, 0, 3, 0, 0, 0, 2, 0, 0, 0, 12]);
    assert_eq!(&encoded[20..24], &[0, 0, 0, 24]);
    assert_eq!(
        &encoded[28..44],
        &[1, 2, 3, 4, 5, 6, 7, 8, 0x11, 0x12, 0x13, 0x14, 0x15, 0x16, 0x17, 0x18]
    );
    let header = ExactTestCodec::read_header(&encoded).expect("header");
    assert_eq!(header.format, 7);
    assert_eq!(header.raw_len, 24);
    assert_eq!(header.payload_len as usize, encoded.len() - HEADER_LEN);
    assert_eq!(ExactTestCodec::read_header(&encoded[..43]), None);
}

#[test]
fn decoding_keeps_the_receivers_timestamp() {
    let frame = text_like(8, 4, 21);
    let decoded = decode(&encode(&frame), 8, 4).expect("decode");
    assert_eq!(frame.capture_timestamp_ns, 123);
    assert_eq!(decoded.capture_timestamp_ns, 456);
    assert_eq!(decoded.width, 8);
    assert_eq!(decoded.height, 4);
    assert_eq!(decoded.format, BGRA);
    assert_eq!(decoded.stride, 32);
    assert_eq!(decoded.capture_sequence, 21);
    assert_eq!(decoded.data, frame.data);
}

#[test]
fn frame_layer_has_the_last_word() {
    let frame = gradient(2, 2);
    let decoded = ExactTestCodec::decode(&encode(&frame), 456, Ok(()), Ok(16)).expect("decode");
    let refused = FrameError { code: 6 };
    assert_eq!(
        ExactTestCodec::into_frame(decoded, Err(refused)).err(),
        Some(CodecError::Frame(refused))
    );
}
