//! Hide a binary payload inside a carrier file (PDF, PNG, or JPEG) in regions
//! that the format's readers are specified to ignore, and recover it
//! byte-for-byte later.

pub mod encoding;
pub mod engines;
pub mod error;
pub mod operations;

use crate::engines::jpeg::{jpeg_embed_result, jpeg_extract_result, jpeg_magic, JpegEngine};
use crate::engines::pdf::{pdf_embed_result, pdf_extract_result, pdf_magic, PdfEngine};
use crate::engines::png::{
    png_embed_result, png_extract_result, png_magic, PngEngine, PNG_MAX_PAYLOAD_LEN,
};
use crate::error::LupinError;
use vstd::prelude::*;

verus! {

/// The uniform capability of a steganography engine: identify the format by
/// its leading bytes, embed a payload into a carrier, extract it again. The
/// per-format behaviour is stated on each implementing type's own methods.
pub trait SteganographyEngine {
    /// The leading bytes that identify this engine's file format.
    fn magic_bytes(&self) -> Vec<u8>;

    /// A human-readable name for this file format.
    fn format_name(&self) -> &'static str;

    /// A file extension for this file format.
    fn format_ext(&self) -> &'static str;

    /// Embeds payload data into the carrier bytes.
    fn embed(&self, source_data: &[u8], payload: &[u8]) -> Result<Vec<u8>, LupinError>
        requires
            payload@.len() <= PNG_MAX_PAYLOAD_LEN,
            payload@.len() <= crate::encoding::MAX_ENCODABLE_LEN,
    ;

    /// Extracts the hidden payload from the carrier bytes.
    fn extract(&self, source_data: &[u8]) -> Result<Vec<u8>, LupinError>;
}

/// One of the built-in engines, as the router selects it.
pub enum Engine {
    Pdf(PdfEngine),
    Png(PngEngine),
    Jpeg(JpegEngine),
}

/// The magic bytes of an engine.
pub open spec fn engine_magic(e: Engine) -> Seq<u8> {
    match e {
        Engine::Pdf(_) => pdf_magic(),
        Engine::Png(_) => png_magic(),
        Engine::Jpeg(_) => jpeg_magic(),
    }
}

/// The format name of an engine.
pub open spec fn engine_name(e: Engine) -> Seq<char> {
    match e {
        Engine::Pdf(_) => "PDF"@,
        Engine::Png(_) => "PNG"@,
        Engine::Jpeg(_) => "JPEG"@,
    }
}

impl Engine {
    /// The leading bytes that identify the engine's file format.
    pub fn magic_bytes(&self) -> (r: Vec<u8>)
        ensures
            r@ == engine_magic(*self),
    {
        match self {
            Engine::Pdf(e) => e.magic_bytes(),
            Engine::Png(e) => e.magic_bytes(),
            Engine::Jpeg(e) => e.magic_bytes(),
        }
    }

    /// A human-readable name for the engine's file format.
    pub fn format_name(&self) -> (r: &'static str)
        ensures
            r@ == engine_name(*self),
    {
        match self {
            Engine::Pdf(e) => e.format_name(),
            Engine::Png(e) => e.format_name(),
            Engine::Jpeg(e) => e.format_name(),
        }
    }

    /// A file extension for the engine's file format.
    pub fn format_ext(&self) -> (r: &'static str)
        ensures
            self is Pdf ==> r@ == ".pdf"@,
            self is Png ==> r@ == "png"@,
            self is Jpeg ==> r@ == ".jpg"@,
    {
        match self {
            Engine::Pdf(e) => e.format_ext(),
            Engine::Png(e) => e.format_ext(),
            Engine::Jpeg(e) => e.format_ext(),
        }
    }

    /// Embeds payload data into the carrier bytes with the engine's format
    /// rules; see the engines' own `embed` methods for the full contracts.
    pub fn embed(&self, source_data: &[u8], payload: &[u8]) -> (r: Result<Vec<u8>, LupinError>)
        requires
            payload@.len() <= crate::encoding::MAX_ENCODABLE_LEN,
            self is Png ==> payload@.len() <= PNG_MAX_PAYLOAD_LEN,
        ensures
            self is Pdf ==> pdf_embed_result(source_data@, payload@, r),
            self is Png ==> png_embed_result(source_data@, payload@, r),
            self is Jpeg ==> jpeg_embed_result(source_data@, payload@, r),
    {
        match self {
            Engine::Pdf(e) => e.embed(source_data, payload),
            Engine::Png(e) => e.embed(source_data, payload),
            Engine::Jpeg(e) => e.embed(source_data, payload),
        }
    }

    /// Extracts the hidden payload from the carrier bytes with the engine's
    /// format rules; see the engines' own `extract` methods for the full
    /// contracts.
    pub fn extract(&self, source_data: &[u8]) -> (r: Result<Vec<u8>, LupinError>)
        ensures
            self is Pdf ==> pdf_extract_result(source_data@, r),
            self is Png ==> png_extract_result(source_data@, r),
            self is Jpeg ==> jpeg_extract_result(source_data@, r),
    {
        match self {
            Engine::Pdf(e) => e.extract(source_data),
            Engine::Png(e) => e.extract(source_data),
            Engine::Jpeg(e) => e.extract(source_data),
        }
    }
}

impl SteganographyEngine for Engine {
    fn magic_bytes(&self) -> Vec<u8> {
        Engine::magic_bytes(self)
    }

    fn format_name(&self) -> &'static str {
        Engine::format_name(self)
    }

    fn format_ext(&self) -> &'static str {
        Engine::format_ext(self)
    }

    fn embed(&self, source_data: &[u8], payload: &[u8]) -> Result<Vec<u8>, LupinError> {
        Engine::embed(self, source_data, payload)
    }

    fn extract(&self, source_data: &[u8]) -> Result<Vec<u8>, LupinError> {
        Engine::extract(self, source_data)
    }
}

/// File format detector that routes a carrier to the engine whose magic
/// bytes prefix it, in registration order.
pub struct EngineRouter {
    pub engines: Vec<Engine>,
}

impl EngineRouter {
    /// Creates a new router with all available engines, in registration
    /// order: PDF, PNG, JPEG.
    pub fn new() -> (r: Self)
        ensures
            r.engines@.len() == 3,
            r.engines@[0] is Pdf,
            r.engines@[1] is Png,
            r.engines@[2] is Jpeg,
    {
        let mut engines: Vec<Engine> = Vec::new();
        engines.push(Engine::Pdf(PdfEngine::new()));
        engines.push(Engine::Png(PngEngine::new()));
        engines.push(Engine::Jpeg(JpegEngine::new()));
        EngineRouter { engines }
    }

    /// Selects the first registered engine whose magic bytes are a prefix of
    /// `data`; fails with `EngineDetection` when none matches.
    pub fn detect_engine(&self, data: &[u8]) -> (r: Result<&Engine, LupinError>)
        ensures
            r matches Ok(e) ==> (exists|k: int|
                0 <= k < self.engines@.len() && *e == self.engines@[k] && engine_magic(
                    #[trigger] self.engines@[k],
                ).is_prefix_of(data@) && (forall|j: int|
                    0 <= j < k ==> !engine_magic(#[trigger] self.engines@[j]).is_prefix_of(
                        data@,
                    ))),
            r matches Err(e) ==> (e is EngineDetection && forall|k: int|
                0 <= k < self.engines@.len() ==> !engine_magic(
                    #[trigger] self.engines@[k],
                ).is_prefix_of(data@)),
    {
        let count = self.engines.len();
        let mut k: usize = 0;
        while k < count
            invariant
                count == self.engines@.len(),
                k <= count,
                forall|j: int|
                    0 <= j < k ==> !engine_magic(#[trigger] self.engines@[j]).is_prefix_of(data@),
            decreases count - k,
        {
            let engine = &self.engines[k];
            let magic = engine.magic_bytes();
            if starts_with_bytes(data, magic.as_slice()) {
                return Ok(engine);
            }
            k = k + 1;
        }
        Err(LupinError::EngineDetection)
    }
}

/// Whether `prefix` is a byte-prefix of `data`.
fn starts_with_bytes(data: &[u8], prefix: &[u8]) -> (r: bool)
    ensures
        r == prefix@.is_prefix_of(data@),
{
    if prefix.len() > data.len() {
        assert(!prefix@.is_prefix_of(data@));
        return false;
    }
    let mut i: usize = 0;
    while i < prefix.len()
        invariant
            i <= prefix@.len() <= data@.len(),
            forall|j: int| 0 <= j < i ==> prefix@[j] == data@[j],
        decreases prefix@.len() - i,
    {
        if data[i] != prefix[i] {
            assert(!prefix@.is_prefix_of(data@));
            return false;
        }
        i = i + 1;
    }
    assert(prefix@ =~= data@.subrange(0, prefix@.len() as int));
    true
}

/// Appends `src[from..to]` to `out`.
pub(crate) fn push_range(out: &mut Vec<u8>, src: &[u8], from: usize, to: usize)
    requires
        from <= to <= src@.len(),
    ensures
        final(out)@ == old(out)@ + src@.subrange(from as int, to as int),
{
    let mut i: usize = from;
    while i < to
        invariant
            from <= i <= to <= src@.len(),
            out@ == old(out)@ + src@.subrange(from as int, i as int),
        decreases to - i,
    {
        out.push(src[i]);
        assert(src@.subrange(from as int, i + 1) =~= src@.subrange(from as int, i as int).push(
            src@[i as int],
        ));
        i = i + 1;
    }
    assert(out@ =~= old(out)@ + src@.subrange(from as int, to as int));
}

} // verus!
