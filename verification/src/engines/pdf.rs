//! PDF steganography engine.
//!
//! PDF readers stop processing at the last `%%EOF` marker; any bytes after it
//! are ignored by conforming readers yet remain in the file. The engine
//! appends the base64-encoded payload right after that marker.

use crate::encoding::{b64_decode, b64_decoding, b64_encode, b64_encoding, is_base64_byte, MAX_ENCODABLE_LEN};
use crate::error::LupinError;
use vstd::prelude::*;

verus! {

/// Hides a payload after a PDF's final `%%EOF` marker.
pub struct PdfEngine;

/// ASCII whitespace, as `u8::is_ascii_whitespace` defines it: space, tab,
/// line feed, form feed, carriage return.
pub open spec fn is_ws(b: u8) -> bool {
    b == 0x20 || b == 0x09 || b == 0x0a || b == 0x0c || b == 0x0d
}

/// The five marker bytes `%%EOF` begin at position `i` of `c`.
pub open spec fn has_eof_at(c: Seq<u8>, i: int) -> bool {
    &&& 0 <= i
    &&& i + 5 <= c.len()
    &&& c[i] == 0x25
    &&& c[i + 1] == 0x25
    &&& c[i + 2] == 0x45
    &&& c[i + 3] == 0x4f
    &&& c[i + 4] == 0x46
}

/// Start position of the right-most `%%EOF` at or before `i`, scanning down.
pub open spec fn rfind_eof_from(c: Seq<u8>, i: int) -> Option<int>
    decreases i + 1,
{
    if i < 0 {
        None
    } else if has_eof_at(c, i) {
        Some(i)
    } else {
        rfind_eof_from(c, i - 1)
    }
}

/// Position one past the right-most `%%EOF` of `c`, if the marker occurs.
pub open spec fn pdf_find_eof_end(c: Seq<u8>) -> Option<int> {
    match rfind_eof_from(c, c.len() - 5) {
        Some(i) => Some(i + 5),
        None => None,
    }
}

/// `s` without its leading ASCII whitespace.
pub open spec fn drop_ws(s: Seq<u8>) -> Seq<u8>
    decreases s.len(),
{
    if s.len() == 0 {
        s
    } else if is_ws(s[0]) {
        drop_ws(s.drop_first())
    } else {
        s
    }
}

/// The record text of `c`: what stands after the right-most `%%EOF`, leading
/// whitespace dropped.
pub open spec fn pdf_record_text(c: Seq<u8>) -> Seq<u8>
    recommends
        pdf_find_eof_end(c) is Some,
{
    drop_ws(c.skip(pdf_find_eof_end(c)->0))
}

/// Extraction from `c` succeeds and yields exactly `p`: the carrier has an
/// `%%EOF` marker, a non-empty record text follows it, and that text decodes
/// to `p`.
pub open spec fn pdf_extracts_to(c: Seq<u8>, p: Seq<u8>) -> bool {
    &&& pdf_find_eof_end(c) is Some
    &&& pdf_record_text(c).len() > 0
    &&& b64_decoding(pdf_record_text(c)) == Some(p)
}

/// Some non-whitespace byte follows the right-most `%%EOF`: the carrier
/// already holds a record (or unrelated trailing bytes).
pub open spec fn pdf_has_trailing_data(c: Seq<u8>) -> bool {
    match pdf_find_eof_end(c) {
        Some(e) => exists|i: int| e <= i < c.len() && !is_ws(c[i]),
        None => false,
    }
}

/// The carrier `embed` produces on success: everything up to the end of the
/// right-most `%%EOF`, then the base64 encoding of the payload.
pub open spec fn pdf_embed_output(c: Seq<u8>, p: Seq<u8>) -> Seq<u8>
    recommends
        pdf_find_eof_end(c) is Some,
{
    c.take(pdf_find_eof_end(c)->0) + b64_encoding(p)
}

/// Full postcondition of `PdfEngine::embed` on carrier `c` and payload `p`.
/// The three hypotheses of the first three clauses are exhaustive and
/// mutually exclusive, so they pin the result for every input; the last
/// clause states the round trip and the collision guarantee for the produced
/// carrier.
pub open spec fn pdf_embed_result(c: Seq<u8>, p: Seq<u8>, r: Result<Vec<u8>, LupinError>) -> bool {
    &&& (pdf_find_eof_end(c) is None ==> (r matches Err(e) && e is PdfNoEofMarker))
    &&& (pdf_has_trailing_data(c) ==> (r matches Err(e) && e is EmbedCollision))
    &&& (pdf_find_eof_end(c) is Some && !pdf_has_trailing_data(c) ==> (r matches Ok(out)
        && out@ == pdf_embed_output(c, p)))
    &&& (r matches Ok(out) ==> (p.len() > 0 ==> pdf_extracts_to(out@, p)
        && pdf_has_trailing_data(out@)))
}

/// Full postcondition of `PdfEngine::extract` on carrier `c`. The hypotheses
/// are exhaustive and mutually exclusive, so the result is pinned for every
/// input.
pub open spec fn pdf_extract_result(c: Seq<u8>, r: Result<Vec<u8>, LupinError>) -> bool {
    &&& (pdf_find_eof_end(c) is None ==> (r matches Err(e) && e is PdfNoEofMarker))
    &&& (pdf_find_eof_end(c) is Some && pdf_record_text(c).len() == 0 ==> (r matches Err(e)
        && e is PdfNoHiddenData))
    &&& (pdf_find_eof_end(c) is Some && pdf_record_text(c).len() > 0 && b64_decoding(
        pdf_record_text(c),
    ) is None ==> (r matches Err(e) && e is PdfCorruptedData))
    &&& (forall|p: Seq<u8>|
        pdf_extracts_to(c, p) ==> (r matches Ok(v) && v@ == p))
}

/// What the downward scan returns: the right-most marker position at or
/// before `i`, or `None` when no marker stands at or before `i`.
proof fn lemma_rfind_eof_from_props(c: Seq<u8>, i: int)
    ensures
        rfind_eof_from(c, i) matches Some(j) ==> 0 <= j <= i && has_eof_at(c, j) && forall|k: int|
            j < k <= i ==> !has_eof_at(c, k),
        rfind_eof_from(c, i) is None ==> forall|k: int| k <= i ==> !has_eof_at(c, k),
    decreases i + 1,
{
    if i >= 0 && !has_eof_at(c, i) {
        lemma_rfind_eof_from_props(c, i - 1);
    }
}

/// The downward scan finds exactly the marker position `j` when `j` carries a
/// marker and nothing above it up to `i` does.
proof fn lemma_rfind_eof_from_hits(c: Seq<u8>, i: int, j: int)
    requires
        0 <= j <= i,
        has_eof_at(c, j),
        forall|k: int| j < k <= i ==> !has_eof_at(c, k),
    ensures
        rfind_eof_from(c, i) == Some(j),
    decreases i + 1,
{
    if i > j {
        lemma_rfind_eof_from_hits(c, i - 1, j);
    }
}

/// Properties of the right-most-`%%EOF` position: when it exists, the marker
/// stands right before it and nowhere later; when it does not, no marker
/// occurs at all.
pub proof fn lemma_pdf_find_eof_end_props(c: Seq<u8>)
    ensures
        pdf_find_eof_end(c) matches Some(e) ==> 5 <= e <= c.len() && has_eof_at(c, e - 5)
            && forall|k: int| k > e - 5 ==> !has_eof_at(c, k),
        pdf_find_eof_end(c) is None ==> forall|k: int| !has_eof_at(c, k),
{
    lemma_rfind_eof_from_props(c, c.len() - 5);
    assert forall|k: int| k > c.len() - 5 implies !has_eof_at(c, k) by {}
}

/// Round trip and collision for the PDF layout: take any carrier `c` whose
/// logical content ends at `e` (one past its right-most `%%EOF`), and append
/// any non-empty text `enc` made of base64 bytes that decodes to `p`. From the
/// resulting carrier, extraction recovers exactly `p`, and a further embed
/// sees trailing data (and so fails with a collision).
pub proof fn lemma_pdf_round_trip(c: Seq<u8>, e: int, enc: Seq<u8>, p: Seq<u8>)
    requires
        pdf_find_eof_end(c) == Some(e),
        enc.len() > 0,
        forall|i: int| 0 <= i < enc.len() ==> is_base64_byte(#[trigger] enc[i]),
        b64_decoding(enc) == Some(p),
    ensures
        pdf_extracts_to(c.take(e) + enc, p),
        pdf_has_trailing_data(c.take(e) + enc),
{
    let out = c.take(e) + enc;
    lemma_pdf_find_eof_end_props(c);
    assert(out.len() == e + enc.len());
    assert forall|m: int| 0 <= m < e implies out[m] == c[m] by {}
    assert(has_eof_at(out, e - 5));
    assert forall|k: int| k > e - 5 implies !has_eof_at(out, k) by {
        if has_eof_at(out, k) {
            if k >= e {
                assert(is_base64_byte(enc[k - e]));
            } else if k == e - 4 {
                assert(out[k + 1] == c[e - 3]);
            } else {
                assert(out[k] == c[k]);
                assert(!has_eof_at(c, k));
                assert(c[k] != 0x25 || k + 5 > c.len() || c[k + 1] != 0x25 || c[k + 2] != 0x45
                    || c[k + 3] != 0x4f || c[k + 4] != 0x46);
            }
        }
    }
    lemma_rfind_eof_from_hits(out, out.len() - 5, e - 5);
    assert(pdf_find_eof_end(out) == Some(e));
    assert(out.skip(e) =~= enc);
    assert(!is_ws(enc[0]));
    assert(drop_ws(enc) == enc);
    assert(pdf_record_text(out) == enc);
    assert(!is_ws(out[e]));
}

/// A well-formed carrier with nothing after its final `%%EOF` holds no
/// record: extraction cannot yield any payload.
pub proof fn lemma_pdf_extract_absence(c: Seq<u8>)
    requires
        pdf_find_eof_end(c) is Some,
        pdf_record_text(c).len() == 0,
    ensures
        forall|p: Seq<u8>| !pdf_extracts_to(c, p),
{
}

/// The `%PDF` magic bytes.
pub open spec fn pdf_magic() -> Seq<u8> {
    seq![0x25u8, 0x50u8, 0x44u8, 0x46u8]
}

impl PdfEngine {
    /// Creates a new PDF engine.
    pub fn new() -> (r: Self) {
        PdfEngine
    }

    /// The magic bytes `%PDF` that identify the format.
    pub fn magic_bytes(&self) -> (r: Vec<u8>)
        ensures
            r@ == pdf_magic(),
    {
        let mut r: Vec<u8> = Vec::new();
        r.push(0x25);
        r.push(0x50);
        r.push(0x44);
        r.push(0x46);
        assert(r@ =~= pdf_magic());
        r
    }

    /// The format's human-readable name.
    pub fn format_name(&self) -> (r: &'static str)
        ensures
            r@ == "PDF"@,
    {
        "PDF"
    }

    /// The format's file extension.
    pub fn format_ext(&self) -> (r: &'static str)
        ensures
            r@ == ".pdf"@,
    {
        ".pdf"
    }

    /// Finds the position one past the right-most `%%EOF` marker, scanning
    /// from the end of the carrier.
    pub fn find_eof_end(&self, pdf: &[u8]) -> (r: Option<usize>)
        ensures
            match r {
                Some(e) => pdf_find_eof_end(pdf@) == Some(e as int),
                None => pdf_find_eof_end(pdf@) is None,
            },
    {
        if pdf.len() < 5 {
            return None;
        }
        let mut i: usize = pdf.len() - 4;
        while i > 0
            invariant
                5 <= pdf@.len(),
                i <= pdf@.len() - 4,
                rfind_eof_from(pdf@, pdf@.len() - 5) == rfind_eof_from(pdf@, i - 1),
            decreases i,
        {
            i = i - 1;
            if pdf[i] == 0x25 && pdf[i + 1] == 0x25 && pdf[i + 2] == 0x45 && pdf[i + 3] == 0x4f
                && pdf[i + 4] == 0x46 {
                assert(has_eof_at(pdf@, i as int));
                assert(rfind_eof_from(pdf@, i as int) == Some(i as int));
                return Some(i + 5);
            }
            assert(!has_eof_at(pdf@, i as int));
        }
        None
    }

    /// Embeds `payload` into the PDF carrier: appends its base64 encoding
    /// right after the right-most `%%EOF` marker. Fails with `PdfNoEofMarker`
    /// when the marker is absent and with `EmbedCollision` when any
    /// non-whitespace byte already follows the marker. On success the output
    /// is pinned byte-for-byte, extraction on it returns exactly `payload`
    /// (when `payload` is non-empty), and a second embed collides.
    pub fn embed(&self, source_data: &[u8], payload: &[u8]) -> (r: Result<Vec<u8>, LupinError>)
        requires
            payload@.len() <= MAX_ENCODABLE_LEN,
        ensures
            pdf_embed_result(source_data@, payload@, r),
    {
        let eof_end = match self.find_eof_end(source_data) {
            Some(e) => e,
            None => {
                return Err(LupinError::PdfNoEofMarker);
            },
        };
        proof {
            lemma_pdf_find_eof_end_props(source_data@);
        }
        let mut i: usize = eof_end;
        while i < source_data.len()
            invariant
                pdf_find_eof_end(source_data@) == Some(eof_end as int),
                eof_end <= i <= source_data@.len(),
                forall|j: int| eof_end <= j < i ==> is_ws(#[trigger] source_data@[j]),
            decreases source_data@.len() - i,
        {
            let b = source_data[i];
            if !(b == 0x20 || b == 0x09 || b == 0x0a || b == 0x0c || b == 0x0d) {
                assert(pdf_has_trailing_data(source_data@));
                return Err(LupinError::EmbedCollision);
            }
            i = i + 1;
        }
        assert(!pdf_has_trailing_data(source_data@));
        let enc = b64_encode(payload);
        let mut out: Vec<u8> = Vec::new();
        crate::push_range(&mut out, source_data, 0, eof_end);
        crate::push_range(&mut out, enc.as_slice(), 0, enc.len());
        assert(out@ =~= source_data@.take(eof_end as int) + enc@);
        proof {
            if payload@.len() > 0 {
                assert(enc@.len() > 0);
                lemma_pdf_round_trip(source_data@, eof_end as int, enc@, payload@);
            }
        }
        Ok(out)
    }

    /// Extracts the hidden payload: decodes the non-whitespace text after the
    /// right-most `%%EOF` marker. Fails with `PdfNoEofMarker` when the marker
    /// is absent, `PdfNoHiddenData` when nothing but whitespace follows it,
    /// and `PdfCorruptedData` when the text is not valid base64.
    pub fn extract(&self, source_data: &[u8]) -> (r: Result<Vec<u8>, LupinError>)
        ensures
            pdf_extract_result(source_data@, r),
    {
        let eof_end = match self.find_eof_end(source_data) {
            Some(e) => e,
            None => {
                return Err(LupinError::PdfNoEofMarker);
            },
        };
        proof {
            lemma_pdf_find_eof_end_props(source_data@);
        }
        let start = first_non_ws(source_data, eof_end);
        if start == source_data.len() {
            assert(pdf_record_text(source_data@) =~= Seq::<u8>::empty());
            return Err(LupinError::PdfNoHiddenData);
        }
        let text = vstd::slice::slice_subrange(source_data, start, source_data.len());
        assert(text@ =~= source_data@.skip(start as int));
        assert(pdf_record_text(source_data@) == text@);
        match b64_decode(text) {
            Some(v) => Ok(v),
            None => Err(LupinError::PdfCorruptedData),
        }
    }
}

impl crate::SteganographyEngine for PdfEngine {
    fn magic_bytes(&self) -> Vec<u8> {
        PdfEngine::magic_bytes(self)
    }

    fn format_name(&self) -> &'static str {
        PdfEngine::format_name(self)
    }

    fn format_ext(&self) -> &'static str {
        PdfEngine::format_ext(self)
    }

    fn embed(&self, source_data: &[u8], payload: &[u8]) -> Result<Vec<u8>, LupinError> {
        PdfEngine::embed(self, source_data, payload)
    }

    fn extract(&self, source_data: &[u8]) -> Result<Vec<u8>, LupinError> {
        PdfEngine::extract(self, source_data)
    }
}

/// First index at or after `from` whose byte is not ASCII whitespace; what
/// remains there is `drop_ws` of what stood at `from`.
fn first_non_ws(data: &[u8], from: usize) -> (r: usize)
    requires
        from <= data@.len(),
    ensures
        from <= r <= data@.len(),
        drop_ws(data@.skip(from as int)) == data@.skip(r as int),
{
    let mut i: usize = from;
    while i < data.len()
        invariant
            from <= i <= data@.len(),
            drop_ws(data@.skip(from as int)) == drop_ws(data@.skip(i as int)),
        decreases data@.len() - i,
    {
        let b = data[i];
        if !(b == 0x20 || b == 0x09 || b == 0x0a || b == 0x0c || b == 0x0d) {
            assert(drop_ws(data@.skip(i as int)) == data@.skip(i as int));
            return i;
        }
        proof {
            assert(data@.skip(i as int).drop_first() =~= data@.skip(i + 1));
        }
        i = i + 1;
    }
    proof {
        assert(data@.skip(data@.len() as int) =~= Seq::<u8>::empty());
    }
    i
}

} // verus!
