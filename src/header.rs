use vstd::prelude::*;
use crate::error::WavError;
use vstd::arithmetic::div_mod::lemma_fundamental_div_mod_converse;

verus! {

/// The value of the two little-endian bytes of `b` starting at `i`.
pub open spec fn le_u16(b: Seq<u8>, i: int) -> int {
    b[i] + 256 * b[i + 1]
}

/// The value of the four little-endian bytes of `b` starting at `i`.
pub open spec fn le_u32(b: Seq<u8>, i: int) -> int {
    b[i] + 256 * b[i + 1] + 65536 * b[i + 2] + 16777216 * b[i + 3]
}

/// The little-endian bytes of a 16-bit value.
pub open spec fn u16_bytes(x: u16) -> Seq<u8> {
    seq![(x % 256) as u8, (x / 256) as u8]
}

/// The little-endian bytes of a 32-bit value.
pub open spec fn u32_bytes(x: u32) -> Seq<u8> {
    seq![
        (x % 256) as u8,
        (x / 256 % 256) as u8,
        (x / 65536 % 256) as u8,
        (x / 16777216) as u8,
    ]
}

/// The format description of a wave file: the sixteen bytes of its `fmt ` chunk.
#[derive(Debug, Clone, Copy, PartialEq, Eq, Structural)]
pub struct Header {
    /// Format tag; 1 is linear PCM.
    pub audio_format: u16,
    /// Number of interleaved channels.
    pub channel_count: u16,
    /// Samples per second of each channel.
    pub sampling_rate: u32,
    /// Bytes per second of audio across all channels.
    pub bytes_per_second: u32,
    /// Bytes per frame across all channels.
    pub block_align: u16,
    /// Width of one sample in bits.
    pub bits_per_sample: u16,
}

/// The header held in the first sixteen bytes of `b`.
pub open spec fn header_of(b: Seq<u8>) -> Header
    recommends
        b.len() >= 16,
{
    Header {
        audio_format: le_u16(b, 0) as u16,
        channel_count: le_u16(b, 2) as u16,
        sampling_rate: le_u32(b, 4) as u32,
        bytes_per_second: le_u32(b, 8) as u32,
        block_align: le_u16(b, 12) as u16,
        bits_per_sample: le_u16(b, 14) as u16,
    }
}

/// The sixteen bytes that store `h`, fields in declaration order, little-endian.
pub open spec fn header_bytes(h: Header) -> Seq<u8> {
    u16_bytes(h.audio_format) + u16_bytes(h.channel_count) + u32_bytes(h.sampling_rate)
        + u32_bytes(h.bytes_per_second) + u16_bytes(h.block_align) + u16_bytes(
        h.bits_per_sample,
    )
}

fn read_u16(b: &[u8], i: usize) -> (r: u16)
    requires
        i + 2 <= b@.len(),
    ensures
        r == le_u16(b@, i as int),
{
    b[i] as u16 + (b[i + 1] as u16) * 256
}

fn read_u32(b: &[u8], i: usize) -> (r: u32)
    requires
        i + 4 <= b@.len(),
    ensures
        r == le_u32(b@, i as int),
{
    b[i] as u32 + (b[i + 1] as u32) * 256 + (b[i + 2] as u32) * 65536 + (b[i + 3] as u32)
        * 16777216
}

fn push_u16(out: &mut Vec<u8>, x: u16)
    ensures
        final(out)@ == old(out)@ + u16_bytes(x),
{
    out.push((x % 256) as u8);
    out.push((x / 256) as u8);
    assert(final(out)@ =~= old(out)@ + u16_bytes(x));
}

fn push_u32(out: &mut Vec<u8>, x: u32)
    ensures
        final(out)@ == old(out)@ + u32_bytes(x),
{
    out.push((x % 256) as u8);
    out.push((x / 256 % 256) as u8);
    out.push((x / 65536 % 256) as u8);
    out.push((x / 16777216) as u8);
    assert(final(out)@ =~= old(out)@ + u32_bytes(x));
}

impl Header {
    /// A header whose block alignment and byte rate are computed from the
    /// channel count, sampling rate and sample width.
    pub fn new(
        audio_format: u16,
        channel_count: u16,
        sampling_rate: u32,
        bits_per_sample: u16,
    ) -> (r: Header)
        requires
            (bits_per_sample / 8) * channel_count <= u16::MAX,
            (bits_per_sample / 8) * channel_count * sampling_rate <= u32::MAX,
        ensures
            r.audio_format == audio_format,
            r.channel_count == channel_count,
            r.sampling_rate == sampling_rate,
            r.bits_per_sample == bits_per_sample,
            r.block_align == (bits_per_sample / 8) * channel_count,
            r.bytes_per_second == (bits_per_sample / 8) * channel_count * sampling_rate,
    {
        let block_align: u16 = (bits_per_sample / 8) * channel_count;
        let bytes_per_second: u32 = (block_align as u32) * sampling_rate;
        Header {
            audio_format,
            channel_count,
            sampling_rate,
            bytes_per_second,
            block_align,
            bits_per_sample,
        }
    }

    /// Reads a header from the first sixteen bytes of `b`; later bytes are ignored.
    pub fn parse(b: &[u8]) -> (r: Result<Header, WavError>)
        ensures
            b@.len() >= 16 ==> r == Ok::<Header, WavError>(header_of(b@)),
            b@.len() < 16 ==> r == Err::<Header, WavError>(WavError::HeaderTooShort),
    {
        if b.len() < 16 {
            return Err(WavError::HeaderTooShort);
        }
        Ok(
            Header {
                audio_format: read_u16(b, 0),
                channel_count: read_u16(b, 2),
                sampling_rate: read_u32(b, 4),
                bytes_per_second: read_u32(b, 8),
                block_align: read_u16(b, 12),
                bits_per_sample: read_u16(b, 14),
            },
        )
    }

    /// The sixteen bytes that store this header.
    pub fn to_bytes(&self) -> (r: Vec<u8>)
        ensures
            r@ == header_bytes(*self),
    {
        let mut out: Vec<u8> = Vec::new();
        push_u16(&mut out, self.audio_format);
        push_u16(&mut out, self.channel_count);
        push_u32(&mut out, self.sampling_rate);
        push_u32(&mut out, self.bytes_per_second);
        push_u16(&mut out, self.block_align);
        push_u16(&mut out, self.bits_per_sample);
        out
    }
}

/// Storing a header and reading it back gives the same header.
pub proof fn lemma_header_bytes_parse(h: Header)
    ensures
        header_bytes(h).len() == 16,
        header_of(header_bytes(h)) == h,
{
    let b = header_bytes(h);
    assert(b.len() == 16);
    assert(le_u16(b, 0) == h.audio_format);
    assert(le_u16(b, 2) == h.channel_count);
    assert(le_u32(b, 4) == h.sampling_rate);
    assert(le_u32(b, 8) == h.bytes_per_second);
    assert(le_u16(b, 12) == h.block_align);
    assert(le_u16(b, 14) == h.bits_per_sample);
}

proof fn lemma_u16_bytes_of(b: Seq<u8>, i: int)
    requires
        0 <= i,
        i + 2 <= b.len(),
    ensures
        u16_bytes(le_u16(b, i) as u16) == b.subrange(i, i + 2),
{
    let x = le_u16(b, i);
    lemma_fundamental_div_mod_converse(x, 256, b[i + 1] as int, b[i] as int);
    assert(u16_bytes(x as u16) =~= b.subrange(i, i + 2));
}

proof fn lemma_u32_bytes_of(b: Seq<u8>, i: int)
    requires
        0 <= i,
        i + 4 <= b.len(),
    ensures
        u32_bytes(le_u32(b, i) as u32) == b.subrange(i, i + 4),
{
    let x = le_u32(b, i);
    let (b0, b1, b2, b3) = (b[i] as int, b[i + 1] as int, b[i + 2] as int, b[i + 3] as int);
    lemma_fundamental_div_mod_converse(x, 256, b1 + 256 * b2 + 65536 * b3, b0);
    lemma_fundamental_div_mod_converse(x / 256, 256, b2 + 256 * b3, b1);
    lemma_fundamental_div_mod_converse(x, 65536, b2 + 256 * b3, b0 + 256 * b1);
    lemma_fundamental_div_mod_converse(x / 65536, 256, b3, b2);
    lemma_fundamental_div_mod_converse(x, 16777216, b3, b0 + 256 * b1 + 65536 * b2);
    assert(u32_bytes(x as u32) =~= b.subrange(i, i + 4));
}

/// Reading a header from any sixteen bytes and storing it gives those bytes back.
pub proof fn lemma_parse_header_bytes(b: Seq<u8>)
    requires
        b.len() == 16,
    ensures
        header_bytes(header_of(b)) == b,
{
    lemma_u16_bytes_of(b, 0);
    lemma_u16_bytes_of(b, 2);
    lemma_u32_bytes_of(b, 4);
    lemma_u32_bytes_of(b, 8);
    lemma_u16_bytes_of(b, 12);
    lemma_u16_bytes_of(b, 14);
    assert(header_bytes(header_of(b)) =~= b);
}

} // verus!
