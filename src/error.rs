use vstd::prelude::*;

verus! {

/// Every way in which reading or writing a wave container can fail.
#[derive(Debug, Clone, Copy, PartialEq, Eq, Structural)]
pub enum WavError {
    /// A chunk header, a form type or a chunk's contents run past the end of the input.
    UnexpectedEof,
    /// The outer container's form type is not `WAVE`.
    NotWave,
    /// The container holds no `fmt ` chunk.
    MissingFormat,
    /// The format chunk holds fewer than sixteen bytes.
    HeaderTooShort,
    /// The format chunk declares an audio format other than linear PCM.
    UnsupportedFormat,
    /// The header declares a sample width other than 8, 16 or 24 bits.
    UnsupportedBitDepth,
    /// The container holds no `data` chunk.
    MissingData,
    /// There are no samples to write.
    EmptyAudio,
    /// A chunk would be longer than its 32-bit length field can say.
    TooLarge,
}

} // verus!
