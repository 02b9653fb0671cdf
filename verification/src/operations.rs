//! High-level operations: route a carrier to the engine its leading bytes
//! select, then embed or extract.

use crate::encoding::MAX_ENCODABLE_LEN;
use crate::engines::jpeg::{jpeg_embed_output, jpeg_embed_result, jpeg_extract_result, jpeg_magic};
use crate::engines::pdf::{
    lemma_pdf_find_eof_end_props, pdf_embed_output, pdf_embed_result, pdf_extract_result,
    pdf_magic,
};
use crate::engines::png::{
    iend_type, lemma_png_find_chunk_props, png_embed_output, png_embed_result, png_extract_result,
    png_magic, PNG_MAX_PAYLOAD_LEN,
};
use crate::error::LupinError;
use crate::{engine_magic, engine_name, EngineRouter};
use vstd::prelude::*;

verus! {

/// Metadata of an embed operation.
#[derive(Debug, Clone)]
pub struct EmbedResult {
    pub source_size: usize,
    pub output_size: usize,
    pub engine: String,
}

/// Metadata of an extract operation.
#[derive(Debug, Clone)]
pub struct ExtractResult {
    pub source_size: usize,
    pub payload_size: usize,
    pub engine: String,
}

/// The router selects the PDF engine for this carrier.
pub open spec fn is_pdf_carrier(c: Seq<u8>) -> bool {
    pdf_magic().is_prefix_of(c)
}

/// The router selects the PNG engine for this carrier.
pub open spec fn is_png_carrier(c: Seq<u8>) -> bool {
    png_magic().is_prefix_of(c)
}

/// The router selects the JPEG engine for this carrier.
pub open spec fn is_jpeg_carrier(c: Seq<u8>) -> bool {
    jpeg_magic().is_prefix_of(c)
}

/// Some engine's magic bytes are a prefix of the carrier.
pub open spec fn is_supported_carrier(c: Seq<u8>) -> bool {
    is_pdf_carrier(c) || is_png_carrier(c) || is_jpeg_carrier(c)
}

/// Name of the engine the router selects (meaningful for supported carriers).
pub open spec fn detected_name(c: Seq<u8>) -> Seq<char> {
    if is_pdf_carrier(c) {
        "PDF"@
    } else if is_png_carrier(c) {
        "PNG"@
    } else {
        "JPEG"@
    }
}

/// The bytes a successful embed produces: a function of the carrier and the
/// payload alone.
pub open spec fn embed_output(c: Seq<u8>, p: Seq<u8>) -> Seq<u8> {
    if is_pdf_carrier(c) {
        pdf_embed_output(c, p)
    } else if is_png_carrier(c) {
        png_embed_output(c, p)
    } else {
        jpeg_embed_output(c, p)
    }
}

/// Forgets an operation's metadata, keeping its data result.
pub open spec fn data_result<A, M>(r: Result<(A, M), LupinError>) -> Result<A, LupinError> {
    match r {
        Ok(p) => Ok(p.0),
        Err(e) => Err(e),
    }
}

/// A carrier's first byte decides its format: no two built-in signatures
/// match the same carrier.
pub proof fn lemma_signatures_do_not_collide(c: Seq<u8>)
    ensures
        is_pdf_carrier(c) ==> c.len() >= 4 && c[0] == 0x25,
        is_png_carrier(c) ==> c.len() >= 8 && c[0] == 0x89,
        is_jpeg_carrier(c) ==> c.len() >= 3 && c[0] == 0xff,
        !(is_pdf_carrier(c) && is_png_carrier(c)),
        !(is_pdf_carrier(c) && is_jpeg_carrier(c)),
        !(is_png_carrier(c) && is_jpeg_carrier(c)),
{
    if is_pdf_carrier(c) {
        assert(c[0] == c.subrange(0, 4)[0]);
    }
    if is_png_carrier(c) {
        assert(c[0] == c.subrange(0, 8)[0]);
    }
    if is_jpeg_carrier(c) {
        assert(c[0] == c.subrange(0, 3)[0]);
    }
}

/// Determinism: a successful embed's output bytes are `embed_output`, a
/// function of the carrier and the payload alone, so two embed calls with
/// identical carrier and payload produce byte-identical output.
pub proof fn lemma_embed_deterministic(c: Seq<u8>, p: Seq<u8>, out1: Seq<u8>, out2: Seq<u8>)
    requires
        out1 == embed_output(c, p),
        out2 == embed_output(c, p),
    ensures
        out1 == out2,
{
}

/// Embeds `payload_data` inside `source_data` using the engine the carrier's
/// leading bytes select; returns the embedded data and operation metadata.
/// The selected engine's full embed contract applies to the data result;
/// carriers no engine matches fail with `EngineDetection`.
pub fn embed(source_data: &[u8], payload_data: &[u8]) -> (r: Result<
    (Vec<u8>, EmbedResult),
    LupinError,
>)
    requires
        payload_data@.len() <= MAX_ENCODABLE_LEN,
        is_png_carrier(source_data@) ==> payload_data@.len() <= PNG_MAX_PAYLOAD_LEN,
    ensures
        !is_supported_carrier(source_data@) ==> (r matches Err(e) && e is EngineDetection),
        is_pdf_carrier(source_data@) ==> pdf_embed_result(
            source_data@,
            payload_data@,
            data_result(r),
        ),
        !is_pdf_carrier(source_data@) && is_png_carrier(source_data@) ==> png_embed_result(
            source_data@,
            payload_data@,
            data_result(r),
        ),
        !is_pdf_carrier(source_data@) && !is_png_carrier(source_data@) && is_jpeg_carrier(
            source_data@,
        ) ==> jpeg_embed_result(source_data@, payload_data@, data_result(r)),
        r matches Ok(pair) ==> (pair.0@ == embed_output(source_data@, payload_data@)
            && pair.1.source_size == source_data@.len() && pair.1.output_size == pair.0@.len()
            && pair.1.engine@ == detected_name(source_data@)),
        r matches Ok(pair) ==> (is_pdf_carrier(pair.0@) == is_pdf_carrier(source_data@)
            && is_png_carrier(pair.0@) == is_png_carrier(source_data@) && is_jpeg_carrier(pair.0@)
            == is_jpeg_carrier(source_data@)),
{
    let router = EngineRouter::new();
    let engine = match router.detect_engine(source_data) {
        Ok(e) => e,
        Err(er) => {
            return Err(er);
        },
    };
    proof {
        let k = choose|k: int|
            0 <= k < router.engines@.len() && *engine == router.engines@[k] && engine_magic(
                router.engines@[k],
            ).is_prefix_of(source_data@) && (forall|j: int|
                0 <= j < k ==> !engine_magic(#[trigger] router.engines@[j]).is_prefix_of(
                    source_data@,
                ));
        if k == 0 {
            assert(engine is Pdf && is_pdf_carrier(source_data@));
        } else if k == 1 {
            assert(engine is Png && is_png_carrier(source_data@) && !is_pdf_carrier(source_data@));
        } else {
            assert(engine is Jpeg && is_jpeg_carrier(source_data@) && !is_pdf_carrier(source_data@)
                && !is_png_carrier(source_data@));
        }
    }
    let embedded_data = match engine.embed(source_data, payload_data) {
        Ok(v) => v,
        Err(er) => {
            return Err(er);
        },
    };
    proof {
        // the output's leading bytes still select the same engine
        let c = source_data@;
        let out = embedded_data@;
        lemma_signatures_do_not_collide(c);
        if is_pdf_carrier(c) {
            lemma_pdf_find_eof_end_props(c);
            assert forall|i: int| 0 <= i < 4 implies out[i] == c[i] by {}
            assert(pdf_magic() =~= out.subrange(0, 4));
            assert(is_pdf_carrier(out));
        } else if is_png_carrier(c) {
            lemma_png_find_chunk_props(c, 8, iend_type());
            assert forall|i: int| 0 <= i < 8 implies out[i] == c[i] by {}
            assert(png_magic() =~= out.subrange(0, 8));
            assert(is_png_carrier(out));
        } else {
            assert(is_jpeg_carrier(c));
            assert(c[1] == c.subrange(0, 3)[1]);
            assert(out[0] == c[0] && out[1] == c[1] && out[2] == 0xff);
            assert(jpeg_magic() =~= out.subrange(0, 3));
            assert(is_jpeg_carrier(out));
        }
        lemma_signatures_do_not_collide(out);
    }
    let name = engine.format_name();
    let result = EmbedResult {
        source_size: source_data.len(),
        output_size: embedded_data.len(),
        engine: name.to_owned(),
    };
    Ok((embedded_data, result))
}

/// Extracts hidden data from `source_data` using the engine the carrier's
/// leading bytes select; returns the extracted payload and operation
/// metadata. The selected engine's full extract contract applies to the data
/// result; carriers no engine matches fail with `EngineDetection`.
pub fn extract(source_data: &[u8]) -> (r: Result<(Vec<u8>, ExtractResult), LupinError>)
    ensures
        !is_supported_carrier(source_data@) ==> (r matches Err(e) && e is EngineDetection),
        is_pdf_carrier(source_data@) ==> pdf_extract_result(source_data@, data_result(r)),
        !is_pdf_carrier(source_data@) && is_png_carrier(source_data@) ==> png_extract_result(
            source_data@,
            data_result(r),
        ),
        !is_pdf_carrier(source_data@) && !is_png_carrier(source_data@) && is_jpeg_carrier(
            source_data@,
        ) ==> jpeg_extract_result(source_data@, data_result(r)),
        r matches Ok(pair) ==> (pair.1.source_size == source_data@.len() && pair.1.payload_size
            == pair.0@.len() && pair.1.engine@ == detected_name(source_data@)),
{
    let router = EngineRouter::new();
    let engine = match router.detect_engine(source_data) {
        Ok(e) => e,
        Err(er) => {
            return Err(er);
        },
    };
    proof {
        let k = choose|k: int|
            0 <= k < router.engines@.len() && *engine == router.engines@[k] && engine_magic(
                router.engines@[k],
            ).is_prefix_of(source_data@) && (forall|j: int|
                0 <= j < k ==> !engine_magic(#[trigger] router.engines@[j]).is_prefix_of(
                    source_data@,
                ));
        if k == 0 {
            assert(engine is Pdf && is_pdf_carrier(source_data@));
        } else if k == 1 {
            assert(engine is Png && is_png_carrier(source_data@) && !is_pdf_carrier(source_data@));
        } else {
            assert(engine is Jpeg && is_jpeg_carrier(source_data@) && !is_pdf_carrier(source_data@)
                && !is_png_carrier(source_data@));
        }
    }
    let payload = match engine.extract(source_data) {
        Ok(v) => v,
        Err(er) => {
            return Err(er);
        },
    };
    let name = engine.format_name();
    let result = ExtractResult {
        source_size: source_data.len(),
        payload_size: payload.len(),
        engine: name.to_owned(),
    };
    Ok((payload, result))
}

} // verus!
