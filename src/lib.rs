//! Reading and writing uncompressed PCM wave files: a `RIFF` container of form
//! type `WAVE` holding a `fmt ` chunk with the header and a `data` chunk with
//! the samples at 8, 16 or 24 bits.
use vstd::prelude::*;

pub mod bit_depth;
pub mod container;
pub mod error;
pub mod header;

pub use bit_depth::BitDepth;
pub use error::WavError;
pub use header::Header;

use bit_depth::{
    decode_samples, encode_samples, lemma_samples_round_trip, samples_fit, width_of, Samples,
};
use container::{
    chunk_at, chunk_list_bytes, chunk_pairs, find_child, form_bytes, read_chunk, read_contents,
    data_chunk_bytes, read_type, riff_tag, same_tag, scan, write_form, RiffChunk, Scan,
};
use header::{header_bytes, header_of, lemma_header_bytes_parse, le_u32, u32_bytes};

verus! {

/// The `WAVE` form type.
pub open spec fn wave_tag() -> Seq<u8> {
    seq![0x57u8, 0x41u8, 0x56u8, 0x45u8]
}

/// The id of the chunk that holds the header.
pub open spec fn fmt_tag() -> Seq<u8> {
    seq![0x66u8, 0x6du8, 0x74u8, 0x20u8]
}

/// The id of the chunk that holds the samples.
pub open spec fn data_tag() -> Seq<u8> {
    seq![0x64u8, 0x61u8, 0x74u8, 0x61u8]
}

fn wave_id() -> (r: [u8; 4])
    ensures
        r@ == wave_tag(),
{
    let r: [u8; 4] = [0x57, 0x41, 0x56, 0x45];
    assert(r@ =~= wave_tag());
    r
}

fn fmt_id() -> (r: [u8; 4])
    ensures
        r@ == fmt_tag(),
{
    let r: [u8; 4] = [0x66, 0x6d, 0x74, 0x20];
    assert(r@ =~= fmt_tag());
    r
}

fn data_id() -> (r: [u8; 4])
    ensures
        r@ == data_tag(),
{
    let r: [u8; 4] = [0x64, 0x61, 0x74, 0x61];
    assert(r@ =~= data_tag());
    r
}

/// Whether `data` starts with a container whose form type is `WAVE`.
pub open spec fn form_check(data: Seq<u8>) -> Result<(), WavError> {
    if data.len() < 12 {
        Err(WavError::UnexpectedEof)
    } else if data.subrange(8, 12) != wave_tag() {
        Err(WavError::NotWave)
    } else {
        Ok(())
    }
}

/// The contents of the first child with id `tag` of the container at the start
/// of `data`; `missing` when there is none.
pub open spec fn child_contents(data: Seq<u8>, tag: Seq<u8>, missing: WavError) -> Result<
    Seq<u8>,
    WavError,
> {
    match scan(data, 12, 4 + le_u32(data, 4), tag) {
        Scan::Found(p) => {
            let len = le_u32(data, p + 4);
            if p + 8 + len <= data.len() {
                Ok(data.subrange(p + 8, p + 8 + len))
            } else {
                Err(WavError::UnexpectedEof)
            }
        },
        Scan::Missing => Err(missing),
        Scan::Truncated => Err(WavError::UnexpectedEof),
    }
}

/// The header that a wave file holds.
pub open spec fn header_result(data: Seq<u8>) -> Result<Header, WavError> {
    match form_check(data) {
        Err(e) => Err(e),
        Ok(_) => match child_contents(data, fmt_tag(), WavError::MissingFormat) {
            Err(e) => Err(e),
            Ok(b) => if b.len() < 16 {
                Err(WavError::HeaderTooShort)
            } else if header_of(b).audio_format != 1 {
                Err(WavError::UnsupportedFormat)
            } else {
                Ok(header_of(b))
            },
        },
    }
}

/// The samples that a wave file holds, read at the width that `h` gives.
pub open spec fn data_result(data: Seq<u8>, h: Header) -> Result<Samples, WavError> {
    match form_check(data) {
        Err(e) => Err(e),
        Ok(_) => match child_contents(data, data_tag(), WavError::MissingData) {
            Err(e) => Err(e),
            Ok(b) => decode_samples(b, h.bits_per_sample),
        },
    }
}

/// The header and the samples that a wave file holds.
pub open spec fn wav_result(data: Seq<u8>) -> Result<(Header, Samples), WavError> {
    match header_result(data) {
        Err(e) => Err(e),
        Ok(h) => match data_result(data, h) {
            Err(e) => Err(e),
            Ok(s) => Ok((h, s)),
        },
    }
}

/// The wave file that stores `h` and `s`: the header chunk, then the sample chunk.
pub open spec fn wav_bytes(h: Header, s: Samples) -> Result<Seq<u8>, WavError> {
    match encode_samples(s) {
        Err(e) => Err(e),
        Ok(d) => if 36 + d.len() + d.len() % 2 <= u32::MAX {
            Ok(form_bytes(wave_tag(), seq![(fmt_tag(), header_bytes(h)), (data_tag(), d)]))
        } else {
            Err(WavError::TooLarge)
        },
    }
}

/// The container chunk at the start of `data`, once its form type is found to be `WAVE`.
fn verify_wav_file(data: &[u8]) -> (r: Result<RiffChunk, WavError>)
    ensures
        match form_check(data@) {
            Ok(_) => r is Ok && r->Ok_0@ == chunk_at(data@, 0),
            Err(e) => r == Err::<RiffChunk, WavError>(e),
        },
{
    let wav = match read_chunk(data, 0) {
        Ok(c) => c,
        Err(_) => return Err(WavError::UnexpectedEof),
    };
    let form_type = match read_type(data, &wav) {
        Ok(t) => t,
        Err(_) => return Err(WavError::UnexpectedEof),
    };
    if !same_tag(form_type, wave_id()) {
        return Err(WavError::NotWave);
    }
    Ok(wav)
}

/// The contents of the first child of `wav` whose id is `tag`; `missing` when there is none.
fn child_bytes(data: &[u8], wav: &RiffChunk, tag: [u8; 4], missing: WavError) -> (r: Result<
    Vec<u8>,
    WavError,
>)
    requires
        form_check(data@) is Ok,
        wav@ == chunk_at(data@, 0),
    ensures
        match r {
            Ok(b) => child_contents(data@, tag@, missing) == Ok::<Seq<u8>, WavError>(b@),
            Err(e) => child_contents(data@, tag@, missing) == Err::<Seq<u8>, WavError>(e),
        },
{
    let c = match find_child(data, wav, tag) {
        Ok(Some(c)) => c,
        Ok(None) => return Err(missing),
        Err(e) => return Err(e),
    };
    match read_contents(data, &c) {
        Ok(b) => Ok(b),
        Err(_) => Err(WavError::UnexpectedEof),
    }
}

/// Reads the header from the `fmt ` chunk of a wave file; only linear PCM is accepted.
pub fn read_header(data: &[u8]) -> (r: Result<Header, WavError>)
    ensures
        r == header_result(data@),
{
    let wav = match verify_wav_file(data) {
        Ok(c) => c,
        Err(e) => return Err(e),
    };
    let bytes = match child_bytes(data, &wav, fmt_id(), WavError::MissingFormat) {
        Ok(b) => b,
        Err(e) => return Err(e),
    };
    let header = match Header::parse(bytes.as_slice()) {
        Ok(h) => h,
        Err(e) => return Err(e),
    };
    if header.audio_format != 1 {
        return Err(WavError::UnsupportedFormat);
    }
    Ok(header)
}

/// Reads the samples from the `data` chunk of a wave file, at the width that `header` gives.
pub fn read_data(data: &[u8], header: &Header) -> (r: Result<BitDepth, WavError>)
    ensures
        match r {
            Ok(d) => data_result(data@, *header) == Ok::<Samples, WavError>(d@),
            Err(e) => data_result(data@, *header) == Err::<Samples, WavError>(e),
        },
{
    let wav = match verify_wav_file(data) {
        Ok(c) => c,
        Err(e) => return Err(e),
    };
    let bytes = match child_bytes(data, &wav, data_id(), WavError::MissingData) {
        Ok(b) => b,
        Err(e) => return Err(e),
    };
    BitDepth::decode(bytes, header.bits_per_sample)
}

/// Reads the header and the samples of a wave file.
pub fn read(data: &[u8]) -> (r: Result<(Header, BitDepth), WavError>)
    ensures
        match r {
            Ok((h, d)) => wav_result(data@) == Ok::<(Header, Samples), WavError>((h, d@)),
            Err(e) => wav_result(data@) == Err::<(Header, Samples), WavError>(e),
        },
{
    let header = match read_header(data) {
        Ok(h) => h,
        Err(e) => return Err(e),
    };
    match read_data(data, &header) {
        Ok(d) => Ok((header, d)),
        Err(e) => Err(e),
    }
}

/// The bytes of a wave file that holds `header` and `track`. `Empty` samples
/// are refused before anything is produced.
pub fn write(header: Header, track: &BitDepth) -> (r: Result<Vec<u8>, WavError>)
    ensures
        match r {
            Ok(b) => wav_bytes(header, track@) == Ok::<Seq<u8>, WavError>(b@),
            Err(e) => wav_bytes(header, track@) == Err::<Seq<u8>, WavError>(e),
        },
        track@ is Empty ==> r == Err::<Vec<u8>, WavError>(WavError::EmptyAudio),
{
    let payload = match track.encode() {
        Ok(b) => b,
        Err(e) => return Err(e),
    };
    let ghost d = payload@;
    if payload.len() as u128 + 36 + (payload.len() % 2) as u128 > 0xFFFF_FFFF {
        return Err(WavError::TooLarge);
    }
    let children: Vec<([u8; 4], Vec<u8>)> = vec![(fmt_id(), header.to_bytes()), (data_id(), payload)];
    proof {
        let cs = seq![(fmt_tag(), header_bytes(header)), (data_tag(), d)];
        assert(chunk_pairs(children@) =~= cs);
        reveal_with_fuel(chunk_list_bytes, 3);
        assert(cs.drop_last().drop_last() =~= Seq::<(Seq<u8>, Seq<u8>)>::empty());
    }
    match write_form(wave_id(), children) {
        Ok(b) => Ok(b),
        Err(_) => Err(WavError::TooLarge),
    }
}

proof fn lemma_u32_read_back(b: Seq<u8>, i: int, x: u32)
    requires
        0 <= i,
        i + 4 <= b.len(),
        b.subrange(i, i + 4) == u32_bytes(x),
    ensures
        le_u32(b, i) == x,
{
    let t = b.subrange(i, i + 4);
    assert(b[i] == t[0] && b[i + 1] == t[1] && b[i + 2] == t[2] && b[i + 3] == t[3]);
}

/// Where the header chunk and the sample chunk of a wave file lie in its chunk list.
spec fn two_chunk_layout(list: Seq<u8>, hb: Seq<u8>, d: Seq<u8>) -> bool {
    &&& hb.len() == 16
    &&& list.len() == 32 + d.len() + d.len() % 2
    &&& list.subrange(0, 4) == fmt_tag()
    &&& list.subrange(4, 8) == u32_bytes(16)
    &&& list.subrange(8, 24) == hb
    &&& list.subrange(24, 28) == data_tag()
    &&& list.subrange(28, 32) == u32_bytes(d.len() as u32)
    &&& list.subrange(32, 32 + d.len() as int) == d
}

proof fn lemma_chunk_list_layout(hb: Seq<u8>, d: Seq<u8>)
    requires
        hb.len() == 16,
    ensures
        two_chunk_layout(chunk_list_bytes(seq![(fmt_tag(), hb), (data_tag(), d)]), hb, d),
{
    let cs = seq![(fmt_tag(), hb), (data_tag(), d)];
    reveal_with_fuel(chunk_list_bytes, 3);
    assert(cs.drop_last().drop_last() =~= Seq::<(Seq<u8>, Seq<u8>)>::empty());
    assert(cs.drop_last() =~= seq![(fmt_tag(), hb)]);
    let first = fmt_tag() + u32_bytes(16) + hb;
    let second = data_chunk_bytes(data_tag(), d);
    assert(chunk_list_bytes(cs.drop_last()) =~= first);
    let list = chunk_list_bytes(cs);
    assert(list == first + second);
    assert(list.subrange(0, 4) =~= fmt_tag());
    assert(list.subrange(4, 8) =~= u32_bytes(16));
    assert(list.subrange(8, 24) =~= hb);
    assert(list.subrange(24, 28) =~= data_tag());
    assert(list.subrange(28, 32) =~= u32_bytes(d.len() as u32));
    assert(list.subrange(32, 32 + d.len() as int) =~= d);
}

/// The container that holds the chunk list `list` under the `WAVE` form type.
spec fn wave_form(list: Seq<u8>) -> Seq<u8> {
    riff_tag() + u32_bytes((4 + list.len()) as u32) + wave_tag() + list
}

proof fn lemma_wave_form_prefix(list: Seq<u8>)
    requires
        4 + list.len() <= u32::MAX,
    ensures
        wave_form(list).len() == 12 + list.len(),
        form_check(wave_form(list)) is Ok,
        le_u32(wave_form(list), 4) == 4 + list.len(),
        forall|i: int| 0 <= i < list.len() ==> #[trigger] wave_form(list)[12 + i] == list[i],
{
    let b = wave_form(list);
    assert(b.subrange(4, 8) =~= u32_bytes((4 + list.len()) as u32));
    lemma_u32_read_back(b, 4, (4 + list.len()) as u32);
    assert(b.subrange(8, 12) =~= wave_tag());
}

proof fn lemma_wave_form_fmt(list: Seq<u8>, hb: Seq<u8>, d: Seq<u8>)
    requires
        4 + list.len() <= u32::MAX,
        two_chunk_layout(list, hb, d),
    ensures
        child_contents(wave_form(list), fmt_tag(), WavError::MissingFormat) == Ok::<
            Seq<u8>,
            WavError,
        >(hb),
{
    let b = wave_form(list);
    lemma_wave_form_prefix(list);
    let end: int = 8 + list.len() as int;
    assert(b.subrange(12, 16) =~= list.subrange(0, 4));
    assert(scan(b, 12, end, fmt_tag()) == Scan::Found(12));
    assert(b.subrange(16, 20) =~= list.subrange(4, 8));
    lemma_u32_read_back(b, 16, 16);
    assert(b.subrange(20, 36) =~= list.subrange(8, 24));
}

proof fn lemma_wave_form_data(list: Seq<u8>, hb: Seq<u8>, d: Seq<u8>)
    requires
        4 + list.len() <= u32::MAX,
        two_chunk_layout(list, hb, d),
    ensures
        child_contents(wave_form(list), data_tag(), WavError::MissingData) == Ok::<
            Seq<u8>,
            WavError,
        >(d),
{
    let b = wave_form(list);
    let n: int = d.len() as int;
    lemma_wave_form_prefix(list);
    let end: int = 8 + list.len() as int;
    assert(b.subrange(12, 16) =~= list.subrange(0, 4));
    assert(b.subrange(16, 20) =~= list.subrange(4, 8));
    lemma_u32_read_back(b, 16, 16);
    assert(b.subrange(36, 40) =~= list.subrange(24, 28));
    assert(scan(b, 36, end, data_tag()) == Scan::Found(36));
    assert(b.subrange(12, 16)[0] != data_tag()[0]);
    assert(scan(b, 12, end, data_tag()) == Scan::Found(36));
    assert(b.subrange(40, 44) =~= list.subrange(28, 32));
    lemma_u32_read_back(b, 40, n as u32);
    assert(b.subrange(44, 44 + n) =~= list.subrange(32, 32 + n));
}

/// A wave file written from a linear PCM header and samples whose variant
/// matches the header's sample width, and which fit that width, reads back as
/// the same header and the same samples.
pub proof fn lemma_write_read_round_trip(h: Header, s: Samples)
    requires
        h.audio_format == 1,
        !(s is Empty),
        samples_fit(s),
        width_of(s) == h.bits_per_sample,
        wav_bytes(h, s) is Ok,
    ensures
        wav_result(wav_bytes(h, s)->Ok_0) == Ok::<(Header, Samples), WavError>((h, s)),
{
    lemma_samples_round_trip(s);
    lemma_header_bytes_parse(h);
    let d = encode_samples(s)->Ok_0;
    let hb = header_bytes(h);
    lemma_chunk_list_layout(hb, d);
    let list = chunk_list_bytes(seq![(fmt_tag(), hb), (data_tag(), d)]);
    assert(wav_bytes(h, s)->Ok_0 == wave_form(list));
    lemma_wave_form_prefix(list);
    lemma_wave_form_fmt(list, hb, d);
    lemma_wave_form_data(list, hb, d);
}

/// A container whose form type is not `WAVE` is refused as such, before any
/// header is read from it.
pub proof fn lemma_not_wave_refused(data: Seq<u8>)
    requires
        data.len() >= 12,
        data.subrange(8, 12) != wave_tag(),
    ensures
        header_result(data) == Err::<Header, WavError>(WavError::NotWave),
        wav_result(data) == Err::<(Header, Samples), WavError>(WavError::NotWave),
{
}

/// A format chunk that declares audio format 2 is refused as unsupported,
/// whatever sample width it declares.
pub proof fn lemma_compressed_format_refused(data: Seq<u8>)
    requires
        form_check(data) is Ok,
        child_contents(data, fmt_tag(), WavError::MissingFormat) is Ok,
        child_contents(data, fmt_tag(), WavError::MissingFormat)->Ok_0.len() >= 16,
        header_of(child_contents(data, fmt_tag(), WavError::MissingFormat)->Ok_0).audio_format
            == 2,
    ensures
        header_result(data) == Err::<Header, WavError>(WavError::UnsupportedFormat),
        wav_result(data) == Err::<(Header, Samples), WavError>(WavError::UnsupportedFormat),
{
}

} // verus!
