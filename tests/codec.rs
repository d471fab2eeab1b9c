use wav::{read, read_data, read_header, BitDepth, Header, WavError};

fn chunk(id: &[u8; 4], contents: &[u8]) -> Vec<u8> {
    let mut out = id.to_vec();
    out.extend_from_slice(&(contents.len() as u32).to_le_bytes());
    out.extend_from_slice(contents);
    if contents.len() % 2 == 1 {
        out.push(0);
    }
    out
}

fn container(form_type: &[u8; 4], children: &[Vec<u8>]) -> Vec<u8> {
    let body: Vec<u8> = children.concat();
    let mut out = b"RIFF".to_vec();
    out.extend_from_slice(&(4 + body.len() as u32).to_le_bytes());
    out.extend_from_slice(form_type);
    out.extend_from_slice(&body);
    out
}

fn header_bytes(audio_format: u16, bits: u16) -> Vec<u8> {
    let mut h = Vec::new();
    h.extend_from_slice(&audio_format.to_le_bytes());
    h.extend_from_slice(&2u16.to_le_bytes());
    h.extend_from_slice(&44100u32.to_le_bytes());
    h.extend_from_slice(&(44100u32 * 2 * (bits as u32 / 8)).to_le_bytes());
    h.extend_from_slice(&(2 * bits / 8).to_le_bytes());
    h.extend_from_slice(&bits.to_le_bytes());
    h
}

fn pcm_header(bits: u16) -> Header {
    Header::new(1, 2, 44100, bits)
}

#[test]
fn header_parse_reads_little_endian_fields() {
    let bytes = [1, 0, 2, 0, 0x44, 0xAC, 0, 0, 0x10, 0xB1, 2, 0, 4, 0, 16, 0];
    let h = Header::parse(&bytes).unwrap();
    assert_eq!(h.audio_format, 1);
    assert_eq!(h.channel_count, 2);
    assert_eq!(h.sampling_rate, 44100);
    assert_eq!(h.bytes_per_second, 176400);
    assert_eq!(h.block_align, 4);
    assert_eq!(h.bits_per_sample, 16);
}

#[test]
fn header_bytes_round_trip() {
    let bytes: Vec<u8> = (0u8..16).map(|i| i.wrapping_mul(37).wrapping_add(200)).collect();
    let h = Header::parse(&bytes).unwrap();
    assert_eq!(h.to_bytes(), bytes);
}

#[test]
fn header_parse_ignores_trailing_bytes() {
    let mut bytes = header_bytes(1, 24);
    bytes.extend_from_slice(&[0, 0]);
    let h = Header::parse(&bytes).unwrap();
    assert_eq!(h.to_bytes(), header_bytes(1, 24));
}

#[test]
fn header_parse_too_short() {
    assert_eq!(Header::parse(&[0u8; 15]), Err(WavError::HeaderTooShort));
    assert_eq!(Header::parse(&[]), Err(WavError::HeaderTooShort));
}

#[test]
fn header_new_computes_rates() {
    let h = Header::new(1, 2, 48000, 24);
    assert_eq!(h.audio_format, 1);
    assert_eq!(h.block_align, 6);
    assert_eq!(h.bytes_per_second, 288000);
}

#[test]
fn sixteen_bit_minus_one() {
    assert_eq!(BitDepth::Sixteen(vec![-1]).encode(), Ok(vec![0xFF, 0xFF]));
    assert_eq!(BitDepth::decode(vec![0xFF, 0xFF], 16), Ok(BitDepth::Sixteen(vec![-1])));
}

#[test]
fn twenty_four_bit_minus_one() {
    assert_eq!(BitDepth::TwentyFour(vec![-1]).encode(), Ok(vec![0xFF, 0xFF, 0xFF]));
    assert_eq!(BitDepth::TwentyFour(vec![0x00FF_FFFF]).encode(), Ok(vec![0xFF, 0xFF, 0xFF]));
    assert_eq!(
        BitDepth::decode(vec![0xFF, 0xFF, 0xFF], 24),
        Ok(BitDepth::TwentyFour(vec![0x00FF_FFFF]))
    );
}

#[test]
fn sample_encodings_are_little_endian() {
    assert_eq!(
        BitDepth::Sixteen(vec![0x1234, -2, i16::MIN]).encode(),
        Ok(vec![0x34, 0x12, 0xFE, 0xFF, 0x00, 0x80])
    );
    assert_eq!(
        BitDepth::TwentyFour(vec![0x0012_3456, 1]).encode(),
        Ok(vec![0x56, 0x34, 0x12, 1, 0, 0])
    );
    assert_eq!(BitDepth::Eight(vec![0, 128, 255]).encode(), Ok(vec![0, 128, 255]));
}

#[test]
fn decode_sixteen_bit_values() {
    assert_eq!(
        BitDepth::decode(vec![0x34, 0x12, 0x00, 0x80, 0xFF, 0x7F], 16),
        Ok(BitDepth::Sixteen(vec![0x1234, i16::MIN, i16::MAX]))
    );
}

#[test]
fn decode_drops_partial_group() {
    assert_eq!(BitDepth::decode(vec![1, 2, 3], 16), Ok(BitDepth::Sixteen(vec![0x0201])));
    assert_eq!(
        BitDepth::decode(vec![1, 2, 3, 4, 5], 24),
        Ok(BitDepth::TwentyFour(vec![0x0003_0201]))
    );
    assert_eq!(BitDepth::decode(vec![9], 16), Ok(BitDepth::Sixteen(vec![])));
    assert_eq!(BitDepth::decode(vec![], 24), Ok(BitDepth::TwentyFour(vec![])));
}

#[test]
fn decode_eight_bit_is_verbatim() {
    assert_eq!(BitDepth::decode(vec![0, 7, 255], 8), Ok(BitDepth::Eight(vec![0, 7, 255])));
}

#[test]
fn decode_unsupported_bit_depth() {
    assert_eq!(BitDepth::decode(vec![0; 4], 32), Err(WavError::UnsupportedBitDepth));
    assert_eq!(BitDepth::decode(vec![0; 4], 12), Err(WavError::UnsupportedBitDepth));
}

#[test]
fn encode_empty_fails() {
    assert_eq!(BitDepth::Empty.encode(), Err(WavError::EmptyAudio));
}

#[test]
fn write_empty_fails_without_output() {
    assert_eq!(wav::write(pcm_header(16), &BitDepth::Empty), Err(WavError::EmptyAudio));
}

#[test]
fn write_lays_out_container() {
    let h = pcm_header(16);
    let out = wav::write(h, &BitDepth::Sixteen(vec![-1, 2])).unwrap();
    let expected = container(
        b"WAVE",
        &[chunk(b"fmt ", &header_bytes(1, 16)), chunk(b"data", &[0xFF, 0xFF, 2, 0])],
    );
    assert_eq!(out, expected);
    assert_eq!(out.len(), 48);
    assert_eq!(&out[4..8], &40u32.to_le_bytes());
}

#[test]
fn write_pads_odd_data_chunk() {
    let out = wav::write(pcm_header(8), &BitDepth::Eight(vec![1, 2, 3])).unwrap();
    assert_eq!(out.len(), 12 + 24 + 8 + 4);
    assert_eq!(&out[40..44], &3u32.to_le_bytes());
    assert_eq!(&out[44..48], &[1, 2, 3, 0]);
}

#[test]
fn round_trip_eight_bit() {
    let h = pcm_header(8);
    let d = BitDepth::Eight(vec![0, 1, 127, 128, 255]);
    let bytes = wav::write(h, &d).unwrap();
    assert_eq!(read(&bytes), Ok((h, d)));
}

#[test]
fn round_trip_sixteen_bit() {
    let h = pcm_header(16);
    let d = BitDepth::Sixteen(vec![0, -1, i16::MIN, i16::MAX, 300]);
    let bytes = wav::write(h, &d).unwrap();
    assert_eq!(read(&bytes), Ok((h, d)));
}

#[test]
fn round_trip_twenty_four_bit() {
    let h = pcm_header(24);
    let d = BitDepth::TwentyFour(vec![0, 1, 0x00FF_FFFF, 0x0080_0000, 0x0012_3456]);
    let bytes = wav::write(h, &d).unwrap();
    assert_eq!(read(&bytes), Ok((h, d)));
}

#[test]
fn read_skips_other_chunks() {
    let bytes = container(
        b"WAVE",
        &[
            chunk(b"LIST", &[1, 2, 3]),
            chunk(b"fmt ", &header_bytes(1, 16)),
            chunk(b"junk", &[0; 6]),
            chunk(b"data", &[1, 0, 2, 0]),
        ],
    );
    let (h, d) = read(&bytes).unwrap();
    assert_eq!(h.bits_per_sample, 16);
    assert_eq!(d, BitDepth::Sixteen(vec![1, 2]));
}

#[test]
fn read_uses_first_matching_chunk() {
    let bytes = container(
        b"WAVE",
        &[
            chunk(b"fmt ", &header_bytes(1, 8)),
            chunk(b"data", &[5, 6]),
            chunk(b"fmt ", &header_bytes(1, 16)),
            chunk(b"data", &[7]),
        ],
    );
    let (h, d) = read(&bytes).unwrap();
    assert_eq!(h.bits_per_sample, 8);
    assert_eq!(d, BitDepth::Eight(vec![5, 6]));
}

#[test]
fn read_refuses_other_form_type() {
    let bytes = container(b"AVI ", &[chunk(b"fmt ", &header_bytes(1, 16)), chunk(b"data", &[0, 0])]);
    assert_eq!(read(&bytes), Err(WavError::NotWave));
    assert_eq!(read_header(&bytes), Err(WavError::NotWave));
}

#[test]
fn read_refuses_compressed_format() {
    let bytes = container(b"WAVE", &[chunk(b"fmt ", &header_bytes(2, 16)), chunk(b"data", &[0, 0])]);
    assert_eq!(read(&bytes), Err(WavError::UnsupportedFormat));
}

#[test]
fn read_missing_format_chunk() {
    let bytes = container(b"WAVE", &[chunk(b"data", &[0, 0])]);
    assert_eq!(read(&bytes), Err(WavError::MissingFormat));
}

#[test]
fn read_missing_data_chunk() {
    let bytes = container(b"WAVE", &[chunk(b"fmt ", &header_bytes(1, 16))]);
    assert_eq!(read_header(&bytes).map(|h| h.bits_per_sample), Ok(16));
    assert_eq!(read(&bytes), Err(WavError::MissingData));
}

#[test]
fn read_short_format_chunk() {
    let bytes = container(b"WAVE", &[chunk(b"fmt ", &[1, 0, 2, 0]), chunk(b"data", &[0, 0])]);
    assert_eq!(read(&bytes), Err(WavError::HeaderTooShort));
}

#[test]
fn read_unsupported_bit_depth() {
    let bytes = container(b"WAVE", &[chunk(b"fmt ", &header_bytes(1, 32)), chunk(b"data", &[0; 8])]);
    let h = read_header(&bytes).unwrap();
    assert_eq!(read_data(&bytes, &h), Err(WavError::UnsupportedBitDepth));
    assert_eq!(read(&bytes), Err(WavError::UnsupportedBitDepth));
}

#[test]
fn read_truncated_input() {
    assert_eq!(read(&[]), Err(WavError::UnexpectedEof));
    assert_eq!(read(b"RIFF\x04\x00\x00\x00WA"), Err(WavError::UnexpectedEof));
    let mut bytes = container(b"WAVE", &[chunk(b"fmt ", &header_bytes(1, 16))]);
    bytes.truncate(30);
    assert_eq!(read(&bytes), Err(WavError::UnexpectedEof));
}

#[test]
fn read_data_with_odd_payload() {
    let bytes = container(b"WAVE", &[chunk(b"fmt ", &header_bytes(1, 16)), chunk(b"data", &[1, 0, 2])]);
    assert_eq!(read(&bytes).map(|r| r.1), Ok(BitDepth::Sixteen(vec![1])));
}
