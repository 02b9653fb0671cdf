use vstd::prelude::*;

verus! {

/// Errors of the steganography core.
///
/// Structural errors (`*InvalidFormat`, `PdfNoEofMarker`, `PngNoIdatChunk`)
/// mean the carrier fails the format's precondition; `*NoHiddenData` means a
/// well-formed carrier holds no record; `*CorruptedData` / `JpegExtractionFailed`
/// mean a record's framing was found but its content does not check out;
/// `EmbedCollision` means the carrier already appears to hold a record.
#[derive(Debug)]
pub enum LupinError {
    /// No registered engine's signature matches the carrier.
    EngineDetection,
    /// An embed was attempted on a carrier that already holds a hidden record.
    EmbedCollision,
    /// The PDF carrier has no `%%EOF` marker.
    PdfNoEofMarker,
    /// The PDF carrier holds nothing after its final `%%EOF` marker.
    PdfNoHiddenData,
    /// The record after the final `%%EOF` marker is not valid base64 text.
    PdfCorruptedData,
    /// The PNG carrier's chunk directory has no `IEND` terminator.
    PngNoIdatChunk,
    /// The PNG carrier holds no record chunk.
    PngNoHiddenData,
    /// The PNG record chunk fails its checksum or does not decode.
    PngCorruptedData,
    /// The JPEG carrier is too short or does not start with `SOI`, or a
    /// record segment's length field runs past the carrier's end.
    JpegInvalidFormat { reason: String },
    /// The payload's base64 encoding does not fit a JPEG segment's 16-bit
    /// length field.
    JpegPayloadTooLarge { max_size: usize, actual_size: usize },
    /// The JPEG carrier holds no record segment.
    JpegNoHiddenData,
    /// The JPEG record segment's content does not decode.
    JpegExtractionFailed,
}

impl LupinError {
    /// A short description of the error; the core defines no `Display`.
    pub fn message(&self) -> (r: &'static str) {
        match self {
            LupinError::EngineDetection => "no suitable engine found for the input file format",
            LupinError::EmbedCollision => "the source file already contains hidden data",
            LupinError::PdfNoEofMarker => "invalid PDF: no %%EOF marker found",
            LupinError::PdfNoHiddenData => "no hidden data found in PDF",
            LupinError::PdfCorruptedData => "corrupted hidden data in PDF",
            LupinError::PngNoIdatChunk => "invalid PNG: chunk directory has no IEND terminator",
            LupinError::PngNoHiddenData => "no hidden data found in PNG",
            LupinError::PngCorruptedData => "corrupted hidden data in PNG",
            LupinError::JpegInvalidFormat { .. } => "invalid JPEG carrier",
            LupinError::JpegPayloadTooLarge { .. } => "payload too large for a JPEG segment",
            LupinError::JpegNoHiddenData => "no hidden data found in JPEG",
            LupinError::JpegExtractionFailed => "corrupted hidden data in JPEG",
        }
    }
}

} // verus!
