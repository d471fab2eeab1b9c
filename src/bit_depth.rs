use vstd::prelude::*;
use crate::error::WavError;
use vstd::arithmetic::div_mod::{lemma_fundamental_div_mod, lemma_div_denominator, lemma_small_mod};

verus! {

/// The samples of a wave file, in file order, at one of the supported widths.
#[derive(Debug, Clone, PartialEq)]
pub enum BitDepth {
    /// Unsigned 8-bit samples, stored verbatim.
    Eight(Vec<u8>),
    /// Signed 16-bit samples.
    Sixteen(Vec<i16>),
    /// 24-bit samples, each held in the low three bytes of an `i32`.
    TwentyFour(Vec<i32>),
    /// No sample data.
    Empty,
}

/// What a [`BitDepth`] holds, as sequences.
pub enum Samples {
    /// Unsigned 8-bit samples.
    Eight(Seq<u8>),
    /// Signed 16-bit samples.
    Sixteen(Seq<i16>),
    /// 24-bit samples in 32-bit containers.
    TwentyFour(Seq<i32>),
    /// No sample data.
    Empty,
}

impl View for BitDepth {
    type V = Samples;

    open spec fn view(&self) -> Samples {
        match self {
            BitDepth::Eight(v) => Samples::Eight(v@),
            BitDepth::Sixteen(v) => Samples::Sixteen(v@),
            BitDepth::TwentyFour(v) => Samples::TwentyFour(v@),
            BitDepth::Empty => Samples::Empty,
        }
    }
}

/// The 16-bit sample stored little-endian in the bytes `lo`, `hi`.
pub open spec fn sample16_of(lo: u8, hi: u8) -> i16 {
    let u = lo + 256 * hi;
    if u < 32768 {
        u as i16
    } else {
        (u - 65536) as i16
    }
}

/// The 24-bit sample stored little-endian in `b0`, `b1`, `b2`, widened with a zero high byte.
pub open spec fn sample24_of(b0: u8, b1: u8, b2: u8) -> i32 {
    (b0 + 256 * b1 + 65536 * b2) as i32
}

/// The 16-bit samples of a payload; a trailing odd byte is dropped.
pub open spec fn decode16(b: Seq<u8>) -> Seq<i16> {
    Seq::new(b.len() / 2, |i: int| sample16_of(b[2 * i], b[2 * i + 1]))
}

/// The 24-bit samples of a payload; one or two trailing bytes are dropped.
pub open spec fn decode24(b: Seq<u8>) -> Seq<i32> {
    Seq::new(b.len() / 3, |i: int| sample24_of(b[3 * i], b[3 * i + 1], b[3 * i + 2]))
}

/// The samples that a payload holds at the given sample width.
pub open spec fn decode_samples(b: Seq<u8>, bits_per_sample: u16) -> Result<Samples, WavError> {
    if bits_per_sample == 8 {
        Ok(Samples::Eight(b))
    } else if bits_per_sample == 16 {
        Ok(Samples::Sixteen(decode16(b)))
    } else if bits_per_sample == 24 {
        Ok(Samples::TwentyFour(decode24(b)))
    } else {
        Err(WavError::UnsupportedBitDepth)
    }
}

/// The two's complement bit pattern of a 16-bit sample.
pub open spec fn bits16(s: i16) -> int {
    if s < 0 {
        s + 65536
    } else {
        s as int
    }
}

/// The two's complement bit pattern of a 32-bit sample.
pub open spec fn bits32(s: i32) -> int {
    if s < 0 {
        s + 4294967296
    } else {
        s as int
    }
}

/// Each 16-bit sample as its two little-endian bytes, in order.
pub open spec fn encode16(v: Seq<i16>) -> Seq<u8> {
    Seq::new(
        2 * v.len(),
        |j: int|
            if j % 2 == 0 {
                (bits16(v[j / 2]) % 256) as u8
            } else {
                (bits16(v[j / 2]) / 256) as u8
            },
    )
}

/// Each 24-bit sample as the three low bytes of its 32-bit container, little-endian, in order.
pub open spec fn encode24(v: Seq<i32>) -> Seq<u8> {
    Seq::new(
        3 * v.len(),
        |j: int|
            if j % 3 == 0 {
                (bits32(v[j / 3]) % 256) as u8
            } else if j % 3 == 1 {
                (bits32(v[j / 3]) / 256 % 256) as u8
            } else {
                (bits32(v[j / 3]) / 65536 % 256) as u8
            },
    )
}

/// The payload that stores the given samples.
pub open spec fn encode_samples(s: Samples) -> Result<Seq<u8>, WavError> {
    match s {
        Samples::Eight(v) => Ok(v),
        Samples::Sixteen(v) => Ok(encode16(v)),
        Samples::TwentyFour(v) => Ok(encode24(v)),
        Samples::Empty => Err(WavError::EmptyAudio),
    }
}

/// The sample width in bits that a variant stands for; 0 for no data.
pub open spec fn width_of(s: Samples) -> u16 {
    match s {
        Samples::Eight(_) => 8,
        Samples::Sixteen(_) => 16,
        Samples::TwentyFour(_) => 24,
        Samples::Empty => 0,
    }
}

/// Every sample fits the width that its variant stands for: a 24-bit sample
/// has a zero high byte.
pub open spec fn samples_fit(s: Samples) -> bool {
    match s {
        Samples::TwentyFour(v) => forall|i: int| 0 <= i < v.len() ==> 0 <= #[trigger] v[i] < 16777216,
        _ => true,
    }
}

fn sample16(lo: u8, hi: u8) -> (r: i16)
    ensures
        r == sample16_of(lo, hi),
{
    let u: u32 = lo as u32 + (hi as u32) * 256;
    if u < 32768 {
        u as i16
    } else {
        (u as i32 - 65536) as i16
    }
}

fn sample24(b0: u8, b1: u8, b2: u8) -> (r: i32)
    ensures
        r == sample24_of(b0, b1, b2),
{
    b0 as i32 + (b1 as i32) * 256 + (b2 as i32) * 65536
}

fn decode_sixteen(b: &Vec<u8>) -> (r: Vec<i16>)
    ensures
        r@ == decode16(b@),
{
    let len: usize = b.len();
    let n: usize = len / 2;
    let mut out: Vec<i16> = Vec::with_capacity(n);
    let mut i: usize = 0;
    while i < n
        invariant
            len == b@.len(),
            n == b@.len() / 2,
            i <= n,
            out@ == decode16(b@).take(i as int),
        decreases n - i,
    {
        assert(2 * i + 2 <= b@.len()) by (nonlinear_arith)
            requires
                i < n,
                n == b@.len() / 2,
        ;
        out.push(sample16(b[2 * i], b[2 * i + 1]));
        i += 1;
        assert(out@ =~= decode16(b@).take(i as int));
    }
    assert(out@ =~= decode16(b@));
    out
}

fn decode_twenty_four(b: &Vec<u8>) -> (r: Vec<i32>)
    ensures
        r@ == decode24(b@),
{
    let len: usize = b.len();
    let n: usize = len / 3;
    let mut out: Vec<i32> = Vec::with_capacity(n);
    let mut i: usize = 0;
    while i < n
        invariant
            len == b@.len(),
            n == b@.len() / 3,
            i <= n,
            out@ == decode24(b@).take(i as int),
        decreases n - i,
    {
        assert(3 * i + 3 <= b@.len()) by (nonlinear_arith)
            requires
                i < n,
                n == b@.len() / 3,
        ;
        out.push(sample24(b[3 * i], b[3 * i + 1], b[3 * i + 2]));
        i += 1;
        assert(out@ =~= decode24(b@).take(i as int));
    }
    assert(out@ =~= decode24(b@));
    out
}

fn encode_sixteen(v: &Vec<i16>) -> (r: Vec<u8>)
    ensures
        r@ == encode16(v@),
{
    let mut out: Vec<u8> = Vec::new();
    let mut i: usize = 0;
    while i < v.len()
        invariant
            i <= v@.len(),
            out@ == encode16(v@.take(i as int)),
        decreases v@.len() - i,
    {
        let s: i16 = v[i];
        let u: u32 = if s < 0 {
            (s as i32 + 65536) as u32
        } else {
            s as u32
        };
        out.push((u % 256) as u8);
        out.push((u / 256) as u8);
        i += 1;
        assert(out@ =~= encode16(v@.take(i as int)));
    }
    assert(v@.take(v@.len() as int) =~= v@);
    out
}

fn encode_twenty_four(v: &Vec<i32>) -> (r: Vec<u8>)
    ensures
        r@ == encode24(v@),
{
    let mut out: Vec<u8> = Vec::new();
    let mut i: usize = 0;
    while i < v.len()
        invariant
            i <= v@.len(),
            out@ == encode24(v@.take(i as int)),
        decreases v@.len() - i,
    {
        let s: i32 = v[i];
        let u: u32 = if s < 0 {
            (s as i64 + 4294967296) as u32
        } else {
            s as u32
        };
        out.push((u % 256) as u8);
        out.push((u / 256 % 256) as u8);
        out.push((u / 65536 % 256) as u8);
        i += 1;
        assert(out@ =~= encode24(v@.take(i as int)));
    }
    assert(v@.take(v@.len() as int) =~= v@);
    out
}

fn copy_bytes(v: &Vec<u8>) -> (r: Vec<u8>)
    ensures
        r@ == v@,
{
    let mut out: Vec<u8> = Vec::with_capacity(v.len());
    let mut i: usize = 0;
    while i < v.len()
        invariant
            i <= v@.len(),
            out@ == v@.take(i as int),
        decreases v@.len() - i,
    {
        out.push(v[i]);
        i += 1;
        assert(out@ =~= v@.take(i as int));
    }
    assert(v@.take(v@.len() as int) =~= v@);
    out
}

impl BitDepth {
    /// Decodes a sample payload at the given width: 8-bit bytes verbatim,
    /// 16- and 24-bit samples little-endian, with a trailing partial group dropped.
    pub fn decode(bytes: Vec<u8>, bits_per_sample: u16) -> (r: Result<BitDepth, WavError>)
        ensures
            match r {
                Ok(d) => decode_samples(bytes@, bits_per_sample) == Ok::<Samples, WavError>(d@),
                Err(e) => decode_samples(bytes@, bits_per_sample) == Err::<Samples, WavError>(e),
            },
    {
        if bits_per_sample == 8 {
            Ok(BitDepth::Eight(bytes))
        } else if bits_per_sample == 16 {
            Ok(BitDepth::Sixteen(decode_sixteen(&bytes)))
        } else if bits_per_sample == 24 {
            Ok(BitDepth::TwentyFour(decode_twenty_four(&bytes)))
        } else {
            Err(WavError::UnsupportedBitDepth)
        }
    }

    /// The payload that stores these samples; there is none for `Empty`.
    pub fn encode(&self) -> (r: Result<Vec<u8>, WavError>)
        ensures
            match r {
                Ok(b) => encode_samples(self@) == Ok::<Seq<u8>, WavError>(b@),
                Err(e) => encode_samples(self@) == Err::<Seq<u8>, WavError>(e),
            },
    {
        match self {
            BitDepth::Eight(v) => Ok(copy_bytes(v)),
            BitDepth::Sixteen(v) => Ok(encode_sixteen(v)),
            BitDepth::TwentyFour(v) => Ok(encode_twenty_four(v)),
            BitDepth::Empty => Err(WavError::EmptyAudio),
        }
    }
}

proof fn lemma_sample16_bytes(s: i16)
    ensures
        sample16_of((bits16(s) % 256) as u8, (bits16(s) / 256) as u8) == s,
{
    lemma_fundamental_div_mod(bits16(s), 256);
}

proof fn lemma_sample24_bytes(s: i32)
    requires
        0 <= s < 16777216,
    ensures
        sample24_of(
            (bits32(s) % 256) as u8,
            (bits32(s) / 256 % 256) as u8,
            (bits32(s) / 65536 % 256) as u8,
        ) == s,
{
    let x = s as int;
    let y = x / 256;
    lemma_fundamental_div_mod(x, 256);
    lemma_fundamental_div_mod(y, 256);
    lemma_div_denominator(x, 256, 256);
    lemma_small_mod((x / 65536) as nat, 256);
}

/// Encoding samples that fit their width, then decoding the payload at the
/// width that their variant stands for, gives the same samples back.
pub proof fn lemma_samples_round_trip(s: Samples)
    requires
        !(s is Empty),
        samples_fit(s),
    ensures
        encode_samples(s) is Ok,
        decode_samples(encode_samples(s)->Ok_0, width_of(s)) == Ok::<Samples, WavError>(s),
{
    match s {
        Samples::Eight(v) => {},
        Samples::Sixteen(v) => {
            let b = encode16(v);
            assert forall|i: int| 0 <= i < v.len() implies #[trigger] decode16(b)[i] == v[i] by {
                assert((2 * i) / 2 == i && (2 * i) % 2 == 0);
                assert((2 * i + 1) / 2 == i && (2 * i + 1) % 2 == 1);
                lemma_sample16_bytes(v[i]);
            }
            assert(decode16(b) =~= v);
        },
        Samples::TwentyFour(v) => {
            let b = encode24(v);
            assert forall|i: int| 0 <= i < v.len() implies #[trigger] decode24(b)[i] == v[i] by {
                assert((3 * i) / 3 == i && (3 * i) % 3 == 0);
                assert((3 * i + 1) / 3 == i && (3 * i + 1) % 3 == 1);
                assert((3 * i + 2) / 3 == i && (3 * i + 2) % 3 == 2);
                lemma_sample24_bytes(v[i]);
            }
            assert(decode24(b) =~= v);
        },
        Samples::Empty => {},
    }
}

/// At 16 or 24 bits every payload decodes without error, to one sample per
/// whole group of bytes: a trailing partial group is dropped.
pub proof fn lemma_partial_group_dropped(b: Seq<u8>, bits_per_sample: u16)
    requires
        bits_per_sample == 16 || bits_per_sample == 24,
    ensures
        match decode_samples(b, bits_per_sample) {
            Ok(Samples::Sixteen(v)) => bits_per_sample == 16 && v.len() == b.len() / 2,
            Ok(Samples::TwentyFour(v)) => bits_per_sample == 24 && v.len() == b.len() / 3,
            _ => false,
        },
{
}

} // verus!
